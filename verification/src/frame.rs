//! Frame counters of a rollback simulation.

use vstd::prelude::*;

verus! {

/// The frame that follows `frame`, wrapping from `i32::MAX` to `i32::MIN`.
pub open spec fn next_frame(frame: i32) -> i32 {
    if frame == i32::MAX {
        i32::MIN
    } else {
        (frame + 1) as i32
    }
}

/// A discrete simulation step.
#[derive(Clone, Copy, Debug, PartialEq, Eq, Structural, Hash)]
pub struct Frame(pub i32);

impl Frame {
    /// The frame after this one; the counter wraps on overflow.
    pub fn next(self) -> (r: Frame)
        ensures
            r.0 == next_frame(self.0),
    {
        if self.0 == i32::MAX {
            Frame(i32::MIN)
        } else {
            Frame(self.0 + 1)
        }
    }
}

impl Default for Frame {
    fn default() -> (r: Frame)
        ensures
            r.0 == 0,
    {
        Frame(0)
    }
}

} // verus!
