//! Snapshots of a resource that is copied bit by bit.

use crate::snapshot::history::{has_frame, is_newest_at, pushed, GgrsSnapshots, SnapshotEntry};
use crate::snapshot::restore::{restore, restore_of, Restore};
use crate::snapshot::strategy::{store_if_present, CopyStrategy};
use crate::RollbackFrameCount;
use std::marker::PhantomData;
use vstd::prelude::*;

verus! {

/// Saves and loads the resource `R` by copying it.
pub struct GgrsResourceSnapshotCopyPlugin<R: Copy> {
    _phantom: PhantomData<R>,
}

impl<R: Copy> Default for GgrsResourceSnapshotCopyPlugin<R> {
    fn default() -> Self {
        Self { _phantom: PhantomData }
    }
}

impl<R: Copy> GgrsResourceSnapshotCopyPlugin<R> {
    /// Saves a copy of `resource`, the state of the resource at `frame`, as
    /// the newest snapshot.
    pub fn save(
        snapshots: &mut GgrsSnapshots<Option<R>>,
        frame: RollbackFrameCount,
        resource: Option<&R>,
    )
        ensures
            final(snapshots).spec_depth() == old(snapshots).spec_depth(),
            final(snapshots)@ == pushed(
                old(snapshots)@,
                old(snapshots).spec_depth(),
                (SnapshotEntry {
                    frame: frame.0,
                    snapshot: match resource {
                        Some(value) => Some(*value),
                        None => None,
                    },
                }),
            ),
    {
        snapshots.push(frame.0, store_if_present::<CopyStrategy<R>>(resource));
    }

    /// What brings the resource back to its state at `frame`, `present`
    /// saying whether the resource exists now. The caller knows that a
    /// snapshot of that frame is stored.
    pub fn load(
        snapshots: &GgrsSnapshots<Option<R>>,
        frame: RollbackFrameCount,
        present: bool,
    ) -> (r: Restore<'_, R>)
        requires
            has_frame(snapshots@, frame.0),
        ensures
            exists|i: int|
                is_newest_at(snapshots@, frame.0, i) && r == restore_of(
                    present,
                    match snapshots@[i].snapshot {
                        Some(value) => Some(&value),
                        None => None,
                    },
                ),
    {
        let snapshot = snapshots.rollback(frame.0);
        restore(present, snapshot.as_ref())
    }
}

} // verus!
