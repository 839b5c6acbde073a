//! A bounded history of snapshots, newest first.

use std::collections::VecDeque;
use vstd::prelude::*;

verus! {

/// One snapshot of a state kind, taken at `frame`.
#[derive(Debug, PartialEq, Eq)]
pub struct SnapshotEntry<As> {
    pub frame: i32,
    pub snapshot: As,
}

/// The first `n` entries of `entries`, or all of them if there are fewer.
pub open spec fn newest<As>(entries: Seq<SnapshotEntry<As>>, n: nat) -> Seq<SnapshotEntry<As>> {
    if entries.len() <= n {
        entries
    } else {
        entries.subrange(0, n as int)
    }
}

/// The entries kept after `entry` is pushed onto `entries` under a window of
/// `depth`: the new entry in front, then the old ones, cut to `depth`.
pub open spec fn pushed<As>(
    entries: Seq<SnapshotEntry<As>>,
    depth: nat,
    entry: SnapshotEntry<As>,
) -> Seq<SnapshotEntry<As>> {
    newest(seq![entry] + entries, depth)
}

/// Whether `i` is the position of the most recently pushed entry for `frame`.
pub open spec fn is_newest_at<As>(entries: Seq<SnapshotEntry<As>>, frame: i32, i: int) -> bool {
    &&& 0 <= i < entries.len()
    &&& entries[i].frame == frame
    &&& forall|j: int| 0 <= j < i ==> entries[j].frame != frame
}

/// Whether some entry was taken at `frame`.
pub open spec fn has_frame<As>(entries: Seq<SnapshotEntry<As>>, frame: i32) -> bool {
    exists|i: int| 0 <= i < entries.len() && entries[i].frame == frame
}

/// The entries kept after each of `pushes` was pushed in turn, first to last.
pub open spec fn pushed_all<As>(
    entries: Seq<SnapshotEntry<As>>,
    depth: nat,
    pushes: Seq<SnapshotEntry<As>>,
) -> Seq<SnapshotEntry<As>>
    decreases pushes.len(),
{
    if pushes.len() == 0 {
        entries
    } else {
        pushed(pushed_all(entries, depth, pushes.drop_last()), depth, pushes.last())
    }
}

/// A snapshot that was just pushed is the one that a lookup of its frame
/// finds, unchanged, as long as the window holds anything at all.
pub proof fn lemma_push_then_lookup<As>(
    entries: Seq<SnapshotEntry<As>>,
    depth: nat,
    entry: SnapshotEntry<As>,
)
    requires
        depth > 0,
    ensures
        has_frame(pushed(entries, depth, entry), entry.frame),
        is_newest_at(pushed(entries, depth, entry), entry.frame, 0),
        pushed(entries, depth, entry)[0] == entry,
{
    let after = pushed(entries, depth, entry);
    assert(after[0] == entry);
    assert(0 <= 0 < after.len() && after[0].frame == entry.frame);
}

/// Looking snapshots up changes nothing, so a snapshot stays what was pushed
/// until enough later pushes move it out of the window: after `later` more
/// pushes, fewer than the window, it sits at position `later.len()`.
pub proof fn lemma_pushed_entry_stays<As>(
    entries: Seq<SnapshotEntry<As>>,
    depth: nat,
    entry: SnapshotEntry<As>,
    later: Seq<SnapshotEntry<As>>,
)
    requires
        later.len() < depth,
    ensures
        pushed_all(pushed(entries, depth, entry), depth, later).len() > later.len(),
        pushed_all(pushed(entries, depth, entry), depth, later)[later.len() as int] == entry,
    decreases later.len(),
{
    if later.len() == 0 {
        lemma_push_then_lookup(entries, depth, entry);
    } else {
        lemma_pushed_entry_stays(entries, depth, entry, later.drop_last());
    }
}

/// After any number of pushes a history holds exactly the most recently
/// pushed entries, newest first, as many as the window allows: the pushes
/// in reverse order, then what was there before, cut to the window.
pub proof fn lemma_window_keeps_newest<As>(
    entries: Seq<SnapshotEntry<As>>,
    depth: nat,
    pushes: Seq<SnapshotEntry<As>>,
)
    requires
        entries.len() <= depth,
    ensures
        pushed_all(entries, depth, pushes) == newest(pushes.reverse() + entries, depth),
        pushed_all(entries, depth, pushes).len() <= depth,
        pushes.len() >= depth ==> pushed_all(entries, depth, pushes) == pushes.reverse().subrange(
            0,
            depth as int,
        ),
    decreases pushes.len(),
{
    if pushes.len() == 0 {
        assert(pushes.reverse() + entries =~= entries);
    } else {
        let init = pushes.drop_last();
        lemma_window_keeps_newest(entries, depth, init);
        let before = pushed_all(entries, depth, init);
        let all = pushes.reverse() + entries;
        assert(pushes.reverse() =~= seq![pushes.last()] + init.reverse());
        assert(all =~= seq![pushes.last()] + (init.reverse() + entries));
        assert(pushed(before, depth, pushes.last()) =~= newest(all, depth));
    }
    if pushes.len() >= depth {
        assert(newest(pushes.reverse() + entries, depth) =~= pushes.reverse().subrange(
            0,
            depth as int,
        ));
    }
}

/// Snapshots of one state kind over the last frames, at most `depth` of them.
pub struct GgrsSnapshots<As> {
    entries: VecDeque<SnapshotEntry<As>>,
    depth: usize,
}

impl<As> GgrsSnapshots<As> {
    /// The stored entries, most recently pushed first.
    pub closed spec fn view(&self) -> Seq<SnapshotEntry<As>> {
        self.entries@
    }

    /// The window: the most entries ever kept.
    pub closed spec fn spec_depth(&self) -> nat {
        self.depth as nat
    }

    /// Never more entries than the window allows.
    #[verifier::type_invariant]
    spec fn bounded(&self) -> bool {
        self.entries@.len() <= self.depth
    }

    /// An empty history with a window of `depth` entries.
    pub fn new(depth: usize) -> (r: Self)
        ensures
            r@ == Seq::<SnapshotEntry<As>>::empty(),
            r.spec_depth() == depth,
    {
        GgrsSnapshots { entries: VecDeque::new(), depth }
    }

    /// The window.
    pub fn depth(&self) -> (r: usize)
        ensures
            r == self.spec_depth(),
    {
        self.depth
    }

    /// The number of stored entries, which is never more than the window.
    pub fn len(&self) -> (r: usize)
        ensures
            r == self@.len(),
            r <= self.spec_depth(),
    {
        proof {
            use_type_invariant(self);
        }
        self.entries.len()
    }

    /// Changes the window, dropping the oldest entries that no longer fit.
    pub fn set_depth(&mut self, depth: usize)
        ensures
            final(self).spec_depth() == depth,
            final(self)@ == newest(old(self)@, depth as nat),
    {
        proof {
            use_type_invariant(&*self);
        }
        // The entries are taken out while they change: the history itself
        // never holds more than its window.
        let mut entries = VecDeque::new();
        core::mem::swap(&mut self.entries, &mut entries);
        entries.truncate(depth);
        self.depth = depth;
        core::mem::swap(&mut self.entries, &mut entries);
    }

    /// Forgets every entry, as when a session starts over. The window stays.
    pub fn clear(&mut self)
        ensures
            final(self).spec_depth() == old(self).spec_depth(),
            final(self)@.len() == 0,
    {
        let mut entries = VecDeque::new();
        core::mem::swap(&mut self.entries, &mut entries);
    }

    /// Stores `snapshot` as the newest entry, taken at `frame`. Entries that
    /// fall out of the window leave, oldest first, whatever their frames are.
    pub fn push(&mut self, frame: i32, snapshot: As)
        ensures
            final(self).spec_depth() == old(self).spec_depth(),
            final(self)@ == pushed(
                old(self)@,
                old(self).spec_depth(),
                (SnapshotEntry { frame, snapshot }),
            ),
            final(self)@.len() <= old(self).spec_depth(),
    {
        proof {
            use_type_invariant(&*self);
        }
        if self.depth == 0 {
            assert(self.entries@.len() == 0);
            assert(pushed(self@, 0, (SnapshotEntry { frame, snapshot })) =~= self@);
            return ;
        }
        let ghost before = self.entries@;
        let ghost entry = SnapshotEntry { frame, snapshot };
        let mut entries = VecDeque::new();
        core::mem::swap(&mut self.entries, &mut entries);
        entries.truncate(self.depth - 1);
        entries.push_front(SnapshotEntry { frame, snapshot });
        assert(entries@ =~= pushed(before, self.depth as nat, entry));
        core::mem::swap(&mut self.entries, &mut entries);
    }

    /// The position of the newest entry taken at `frame`, if there is one.
    pub fn position(&self, frame: i32) -> (r: Option<usize>)
        ensures
            match r {
                Some(i) => is_newest_at(self@, frame, i as int),
                None => !has_frame(self@, frame),
            },
    {
        let mut i: usize = 0;
        while i < self.entries.len()
            invariant
                i <= self.entries@.len(),
                forall|j: int| 0 <= j < i ==> self.entries@[j].frame != frame,
            decreases self.entries@.len() - i,
        {
            if self.entries[i].frame == frame {
                return Some(i);
            }
            i += 1;
        }
        None
    }

    /// The newest snapshot taken at `frame`, or `None` if the history holds
    /// none for that frame.
    pub fn peek(&self, frame: i32) -> (r: Option<&As>)
        ensures
            match r {
                Some(s) => exists|i: int| is_newest_at(self@, frame, i) && *s == self@[i].snapshot,
                None => !has_frame(self@, frame),
            },
    {
        match self.position(frame) {
            Some(i) => Some(&self.entries[i].snapshot),
            None => None,
        }
    }

    /// The newest snapshot taken at `frame`. The caller knows that one is
    /// stored: a load of a frame that was never saved, or that left the
    /// window, is a misuse of the history.
    pub fn rollback(&self, frame: i32) -> (r: &As)
        requires
            has_frame(self@, frame),
        ensures
            exists|i: int| is_newest_at(self@, frame, i) && *r == self@[i].snapshot,
    {
        match self.position(frame) {
            Some(i) => &self.entries[i].snapshot,
            None => {
                proof {
                    assert(false);
                }
                vstd::pervasive::unreached()
            },
        }
    }
}

} // verus!
