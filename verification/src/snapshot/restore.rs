//! What a load does to one piece of state.

use crate::snapshot::history::{is_newest_at, pushed, SnapshotEntry};
use vstd::prelude::*;

verus! {

/// What a load does to the state of one kind on one object, or to one
/// resource.
#[derive(Debug, PartialEq, Eq)]
pub enum Restore<'a, T> {
    /// There is none now and there was none then: nothing to do.
    Keep,
    /// There is none now: attach what was saved.
    Insert(&'a T),
    /// There was none then: detach what is there.
    Remove,
    /// Replace what is there by what was saved.
    Overwrite(&'a T),
}

/// The change that takes a piece of state from what is there now to what
/// was saved: `present` says whether there is any now, `saved` is what the
/// snapshot holds.
pub open spec fn restore_of<'a, T>(present: bool, saved: Option<&'a T>) -> Restore<'a, T> {
    match (present, saved) {
        (false, None) => Restore::Keep,
        (false, Some(value)) => Restore::Insert(value),
        (true, None) => Restore::Remove,
        (true, Some(value)) => Restore::Overwrite(value),
    }
}

/// The change that takes a piece of state from what is there now to what
/// was saved.
pub fn restore<'a, T>(present: bool, saved: Option<&'a T>) -> (r: Restore<'a, T>)
    ensures
        r == restore_of(present, saved),
{
    match (present, saved) {
        (false, None) => Restore::Keep,
        (false, Some(value)) => Restore::Insert(value),
        (true, None) => Restore::Remove,
        (true, Some(value)) => Restore::Overwrite(value),
    }
}

impl<'a, T> Restore<'a, T> {
    /// What is there after the change: exactly what was saved, whatever
    /// was there before.
    pub open spec fn result(self, before: Option<T>) -> Option<T> {
        match self {
            Restore::Keep => before,
            Restore::Insert(value) => Some(*value),
            Restore::Remove => None,
            Restore::Overwrite(value) => Some(*value),
        }
    }
}

/// A load reproduces what was saved: after the change that `restore_of`
/// gives, the state is the saved one, bit for bit.
pub proof fn lemma_restore_reproduces_saved<T>(before: Option<T>, saved: Option<T>)
    ensures
        restore_of(
            before.is_some(),
            match saved {
                Some(value) => Some(&value),
                None => None,
            },
        ).result(before) == saved,
{
}

/// Loading a frame right after saving it reproduces the saved state: once
/// `state` is saved for `frame` in a history whose window holds anything
/// at all, the newest snapshot of `frame` is that state, and the change
/// that a load makes ends in it, whatever is there at the time of the load.
pub proof fn lemma_save_then_load_reproduces_state<T>(
    entries: Seq<SnapshotEntry<Option<T>>>,
    depth: nat,
    frame: i32,
    state: Option<T>,
    before: Option<T>,
)
    requires
        depth > 0,
    ensures
        ({
            let saved = pushed(entries, depth, (SnapshotEntry { frame, snapshot: state }));
            &&& is_newest_at(saved, frame, 0)
            &&& forall|i: int| is_newest_at(saved, frame, i) ==> i == 0
            &&& restore_of(
                before.is_some(),
                match saved[0].snapshot {
                    Some(value) => Some(&value),
                    None => None,
                },
            ).result(before) == state
        }),
{
    let entry = SnapshotEntry { frame, snapshot: state };
    let saved = pushed(entries, depth, entry);
    assert(saved[0] == entry);
    lemma_restore_reproduces_saved(before, state);
}

} // verus!
