//! The history of one resource.

use crate::frame::Frame;
use crate::session::Session;
use crate::snapshot::history::{
    has_frame, is_newest_at, newest, pushed, GgrsSnapshots, SnapshotEntry,
};
use crate::snapshot::restore::{restore, restore_of, Restore};
use std::marker::PhantomData;
use vstd::prelude::*;

verus! {

/// Sets up the rollback of one resource.
pub struct ResourceRollbackPlugin;

impl ResourceRollbackPlugin {
    /// Chooses the resource that is rolled back.
    pub fn for_type<R>(self) -> ResourceRollbackPluginBuilder<(), R> {
        ResourceRollbackPluginBuilder(PhantomData)
    }
}

/// The rollback of the resource `R` in sessions of the configuration `T`.
pub struct ResourceRollbackPluginBuilder<T, R>(PhantomData<(T, R)>);

impl<T, R> ResourceRollbackPluginBuilder<T, R> {
    /// Chooses the configuration of the sessions.
    pub fn with_config<TNew>(self) -> ResourceRollbackPluginBuilder<TNew, R> {
        ResourceRollbackPluginBuilder(PhantomData)
    }

    /// The history that the save and load handlers of the resource share:
    /// empty at first.
    pub fn build(&self) -> (r: ResourceHistory<R>)
        ensures
            r@.len() == 0,
    {
        ResourceHistory::default()
    }
}

/// The states of one resource over the last frames, newest first. At a
/// frame at which the resource did not exist the state is `None`.
pub struct ResourceHistory<R> {
    states: GgrsSnapshots<Option<R>>,
}

/// A history without states.
impl<R> Default for ResourceHistory<R> {
    fn default() -> (r: Self)
        ensures
            r@.len() == 0,
    {
        ResourceHistory { states: GgrsSnapshots::new(0) }
    }
}

impl<R> ResourceHistory<R> {
    /// The saved states, newest first.
    pub closed spec fn view(&self) -> Seq<SnapshotEntry<Option<R>>> {
        self.states@
    }

    /// Saves `resource`, the state of the resource at `frame`, as the
    /// newest state, and keeps no more states than the prediction window of
    /// `session`.
    pub fn save(&mut self, resource: Option<R>, frame: Frame, session: &Session)
        ensures
            final(self)@ == pushed(
                old(self)@,
                session.spec_max_prediction_window() as nat,
                (SnapshotEntry { frame: frame.0, snapshot: resource }),
            ),
    {
        let ghost before = self@;
        let ghost window = session.spec_max_prediction_window() as nat;
        let ghost entry = SnapshotEntry { frame: frame.0, snapshot: resource };
        self.states.set_depth(session.max_prediction_window());
        self.states.push(frame.0, resource);
        assert(pushed(newest(before, window), window, entry) =~= pushed(before, window, entry));
    }

    /// What brings the resource back to its state at `frame`, `present`
    /// saying whether the resource exists now. Without a state for that
    /// frame there is nothing to do, which the caller should report.
    pub fn load(&self, present: bool, frame: Frame) -> (r: Option<Restore<'_, R>>)
        ensures
            r.is_none() <==> !has_frame(self@, frame.0),
            r matches Some(change) ==> exists|i: int|
                is_newest_at(self@, frame.0, i) && change == restore_of(
                    present,
                    match self@[i].snapshot {
                        Some(value) => Some(&value),
                        None => None,
                    },
                ),
    {
        match self.states.peek(frame.0) {
            Some(snapshot) => Some(restore(present, snapshot.as_ref())),
            None => None,
        }
    }
}

} // verus!
