//! The history of one kind of component.

use crate::frame::Frame;
use crate::session::Session;
use crate::snapshot::entity::{Entity, Rollback};
use crate::snapshot::history::{has_frame, is_newest_at, GgrsSnapshots, SnapshotEntry};
use crate::snapshot::id_table::{id_table_entries, IdTable};
use crate::snapshot::restore::{restore, restore_of, Restore};
use std::marker::PhantomData;
use vstd::prelude::*;

verus! {

/// Sets up the rollback of one kind of component.
pub struct ComponentRollbackPlugin;

impl ComponentRollbackPlugin {
    /// Chooses the kind of component that is rolled back.
    pub fn for_type<C>(self) -> ComponentRollbackPluginBuilder<(), C> {
        ComponentRollbackPluginBuilder(PhantomData)
    }
}

/// The rollback of the component `C` in sessions of the configuration `T`.
pub struct ComponentRollbackPluginBuilder<T, C>(PhantomData<(T, C)>);

impl<T, C> ComponentRollbackPluginBuilder<T, C> {
    /// Chooses the configuration of the sessions.
    pub fn with_config<TNew>(self) -> ComponentRollbackPluginBuilder<TNew, C> {
        ComponentRollbackPluginBuilder(PhantomData)
    }

    /// The history that the save and load handlers of the component share:
    /// empty at first.
    pub fn build(&self) -> (r: ComponentHistory<C>)
        ensures
            r@.len() == 0,
    {
        ComponentHistory::default()
    }
}

/// The component of each rollback id in `components`. Where an id occurs
/// more than once, the last occurrence counts.
pub open spec fn components_of<C>(components: Seq<(Rollback, C)>) -> Map<u64, C>
    decreases components.len(),
{
    if components.len() == 0 {
        Map::empty()
    } else {
        components_of(components.drop_last()).insert(
            components.last().0.0,
            components.last().1,
        )
    }
}

/// The position in `components` of the component of each rollback id: that
/// of its last occurrence.
pub open spec fn positions_of<C>(components: Seq<(Rollback, C)>) -> Map<u64, u64>
    decreases components.len(),
{
    if components.len() == 0 {
        Map::empty()
    } else {
        positions_of(components.drop_last()).insert(
            components.last().0.0,
            (components.len() - 1) as u64,
        )
    }
}

/// The positions lead to the components: a rollback id has a position
/// exactly if it has a component, and at its position stands that
/// component.
pub proof fn lemma_positions_lead_to_components<C>(components: Seq<(Rollback, C)>, id: u64)
    requires
        components.len() <= u64::MAX,
    ensures
        positions_of(components).contains_key(id) == components_of(components).contains_key(id),
        positions_of(components).contains_key(id) ==> {
            let position = positions_of(components)[id];
            &&& position < components.len()
            &&& components[position as int].0.0 == id
            &&& components[position as int].1 == components_of(components)[id]
        },
    decreases components.len(),
{
    if components.len() > 0 {
        lemma_positions_lead_to_components(components.drop_last(), id);
    }
}

/// However many components are saved, only finitely many rollback ids have
/// one.
pub proof fn lemma_components_are_finite<C>(components: Seq<(Rollback, C)>)
    ensures
        components_of(components).dom().finite(),
    decreases components.len(),
{
    if components.len() > 0 {
        lemma_components_are_finite(components.drop_last());
    }
}

/// The components of one kind at one frame, by rollback id.
pub struct GgrsComponentSnapshot<C> {
    components: Vec<(Rollback, C)>,
    /// The position in `components` of the component of each rollback id.
    index: IdTable,
}

impl<C> GgrsComponentSnapshot<C> {
    #[verifier::type_invariant]
    spec fn indexed(&self) -> bool {
        id_table_entries(self.index) == positions_of(self.components@)
    }

    /// The component of each rollback id that has one.
    pub closed spec fn view(&self) -> Map<u64, C> {
        components_of(self.components@)
    }

    /// Only finitely many rollback ids have a component.
    pub proof fn lemma_finite(&self)
        ensures
            self@.dom().finite(),
    {
        lemma_components_are_finite(self.components@);
    }

    /// The snapshot of `components`. Where a rollback id occurs more than
    /// once, its last component counts.
    pub fn new(components: Vec<(Rollback, C)>) -> (r: Self)
        ensures
            r@ == components_of(components@),
    {
        let mut index = IdTable::empty();
        let mut i: usize = 0;
        while i < components.len()
            invariant
                i <= components@.len(),
                id_table_entries(index) == positions_of(components@.subrange(0, i as int)),
            decreases components@.len() - i,
        {
            index.insert(components[i].0.0, i as u64);
            proof {
                assert(components@.subrange(0, i + 1).drop_last() =~= components@.subrange(
                    0,
                    i as int,
                ));
            }
            i += 1;
        }
        proof {
            assert(components@.subrange(0, i as int) =~= components@);
        }
        GgrsComponentSnapshot { components, index }
    }

    /// The component of the object with the rollback id `rollback`, if the
    /// snapshot has one.
    pub fn get(&self, rollback: Rollback) -> (r: Option<&C>)
        ensures
            r == if self@.contains_key(rollback.0) {
                Some(&self@[rollback.0])
            } else {
                None::<&C>
            },
    {
        proof {
            use_type_invariant(self);
            assert(self.components.len() == self.components@.len());
            lemma_positions_lead_to_components(self.components@, rollback.0);
        }
        match self.index.get(rollback.0) {
            Some(position) => Some(&self.components[position as usize].1),
            None => None,
        }
    }

    /// The number of rollback ids that have a component.
    pub fn len(&self) -> (r: usize)
        ensures
            r == self@.len(),
    {
        proof {
            use_type_invariant(self);
            assert(self.components.len() == self.components@.len());
            assert(positions_of(self.components@).dom() =~= self@.dom()) by {
                assert forall|id: u64|
                    positions_of(self.components@).contains_key(id) == self@.contains_key(
                        id,
                    ) by {
                    lemma_positions_lead_to_components(self.components@, id);
                }
            }
        }
        self.index.len()
    }
}

/// A rollback object as a load finds it.
#[derive(Clone, Copy, Debug, PartialEq, Eq, Structural, Hash)]
pub struct Live {
    pub entity: Entity,
    pub rollback: Rollback,
    /// Whether the object has a component of the kind in question.
    pub present: bool,
}

/// The objects among `live` for which `saved` holds a component.
pub open spec fn restored_of<C>(live: Seq<Live>, saved: Map<u64, C>) -> nat
    decreases live.len(),
{
    if live.len() == 0 {
        0
    } else {
        restored_of(live.drop_last(), saved) + if saved.contains_key(live.last().rollback.0) {
            1nat
        } else {
            0nat
        }
    }
}

/// What a load does to the components of one kind.
#[derive(Debug, PartialEq, Eq)]
pub struct Restoration<'a, C> {
    /// The change for each live object, in the order of the objects.
    pub changes: Vec<(Entity, Restore<'a, C>)>,
    /// The number of live objects that get a saved component.
    pub restored: usize,
    /// The number of components that the snapshot holds. Where it is not
    /// `restored`, a saved component has no live object to go to, or two
    /// live objects share a rollback id.
    pub saved: usize,
}

impl<'a, C> Restoration<'a, C> {
    /// Whether this is what brings the components of `live` to those of
    /// `saved`: one change for each live object, which takes the object's
    /// component to the saved one of its rollback id, and the two counts.
    pub open spec fn restores(&self, live: Seq<Live>, saved: Map<u64, C>) -> bool {
        &&& self.changes@.len() == live.len()
        &&& forall|j: int|
            0 <= j < live.len() ==> (#[trigger] self.changes@[j]) == (
                live[j].entity,
                restore_of(
                    live[j].present,
                    if saved.contains_key(live[j].rollback.0) {
                        Some(&saved[live[j].rollback.0])
                    } else {
                        None
                    },
                ),
            )
        &&& self.restored == restored_of(live, saved)
        &&& self.saved == saved.len()
    }
}

/// Whether `after` is what a history holds once `components` were saved for
/// `frame`, `before` being what it held until then: the new state in front,
/// then the old ones in their order, no more than `window` in all.
pub open spec fn saved_onto<C>(
    before: Seq<SnapshotEntry<GgrsComponentSnapshot<C>>>,
    after: Seq<SnapshotEntry<GgrsComponentSnapshot<C>>>,
    window: nat,
    frame: Frame,
    components: Map<u64, C>,
) -> bool {
    if window == 0 {
        after.len() == 0
    } else {
        &&& after.len() == if before.len() < window {
            before.len() + 1
        } else {
            window
        }
        &&& after[0].frame == frame.0
        &&& after[0].snapshot@ == components
        &&& forall|i: int| 1 <= i < after.len() ==> after[i] == before[i - 1]
    }
}

/// The components of one kind over the last frames, newest first. Each
/// state holds, by rollback id, the component of every object that had
/// one.
pub struct ComponentHistory<C> {
    states: GgrsSnapshots<GgrsComponentSnapshot<C>>,
}

/// A history without states.
impl<C> Default for ComponentHistory<C> {
    fn default() -> (r: Self)
        ensures
            r@.len() == 0,
    {
        ComponentHistory { states: GgrsSnapshots::new(0) }
    }
}

impl<C> ComponentHistory<C> {
    /// The saved states, newest first.
    pub closed spec fn view(&self) -> Seq<SnapshotEntry<GgrsComponentSnapshot<C>>> {
        self.states@
    }

    /// Saves `components`, the components that the rollback objects have at
    /// `frame`, as the newest state, and keeps no more states than the
    /// prediction window of `session`.
    pub fn save(&mut self, components: Vec<(Rollback, C)>, frame: Frame, session: &Session)
        ensures
            saved_onto(
                old(self)@,
                final(self)@,
                session.spec_max_prediction_window() as nat,
                frame,
                components_of(components@),
            ),
    {
        let map = GgrsComponentSnapshot::new(components);
        self.states.set_depth(session.max_prediction_window());
        self.states.push(frame.0, map);
    }

    /// What brings the components of `live` back to their state at `frame`.
    /// The caller knows that the history has a state for that frame: a load
    /// of a frame that was never saved, or that left the window, is a
    /// misuse of the history.
    pub fn load(&self, live: &Vec<Live>, frame: Frame) -> (r: Restoration<'_, C>)
        requires
            has_frame(self@, frame.0),
        ensures
            exists|i: int|
                is_newest_at(self@, frame.0, i) && r.restores(live@, self@[i].snapshot@),
    {
        let map = self.states.rollback(frame.0);
        let ghost saved = map@;
        let mut changes: Vec<(Entity, Restore<'_, C>)> = Vec::new();
        let mut restored: usize = 0;
        let mut j: usize = 0;
        while j < live.len()
            invariant
                j <= live@.len(),
                saved == map@,
                changes@.len() == j,
                restored == restored_of(live@.subrange(0, j as int), saved),
                restored <= j,
                forall|k: int|
                    0 <= k < j ==> (#[trigger] changes@[k]) == (
                        live@[k].entity,
                        restore_of(
                            live@[k].present,
                            if saved.contains_key(live@[k].rollback.0) {
                                Some(&saved[live@[k].rollback.0])
                            } else {
                                None
                            },
                        ),
                    ),
            decreases live@.len() - j,
        {
            let object = live[j];
            let snapshot = map.get(object.rollback);
            if snapshot.is_some() {
                restored += 1;
            }
            changes.push((object.entity, restore(object.present, snapshot)));
            proof {
                assert(live@.subrange(0, j + 1).drop_last() =~= live@.subrange(0, j as int));
            }
            j += 1;
        }
        proof {
            assert(live@.subrange(0, j as int) =~= live@);
        }
        Restoration { changes, restored, saved: map.len() }
    }

    /// What brings the components of `live` back to their state at `frame`,
    /// or `None` where the history has no state for that frame.
    pub fn try_load(&self, live: &Vec<Live>, frame: Frame) -> (r: Option<Restoration<'_, C>>)
        ensures
            r.is_none() <==> !has_frame(self@, frame.0),
            r matches Some(back) ==> exists|i: int|
                is_newest_at(self@, frame.0, i) && back.restores(live@, self@[i].snapshot@),
    {
        if self.states.position(frame.0).is_some() {
            Some(self.load(live, frame))
        } else {
            None
        }
    }
}

/// The rollback ids of the objects in `live`.
pub open spec fn live_ids(live: Seq<Live>) -> Set<u64> {
    Set::new(|id: u64| exists|j: int| 0 <= j < live.len() && (#[trigger] live[j]).rollback.0 == id)
}

/// Whether no two objects of `live` have the same rollback id.
pub open spec fn distinct_rollbacks(live: Seq<Live>) -> bool {
    forall|i: int, j: int| 0 <= i < j < live.len() ==> live[i].rollback != live[j].rollback
}

/// Where the live objects all have different rollback ids, the number of
/// objects that get a saved component is the number of saved components
/// that have a live object.
pub proof fn lemma_restored_counts_matches<C>(live: Seq<Live>, saved: Map<u64, C>)
    requires
        distinct_rollbacks(live),
    ensures
        live_ids(live).finite(),
        live_ids(live).len() == live.len(),
        restored_of(live, saved) == live_ids(live).intersect(saved.dom()).len(),
    decreases live.len(),
{
    if live.len() == 0 {
        assert(live_ids(live) =~= Set::<u64>::empty());
        assert(live_ids(live).intersect(saved.dom()) =~= Set::<u64>::empty());
    } else {
        let init = live.drop_last();
        let last = live.last().rollback.0;
        assert(distinct_rollbacks(init)) by {
            assert forall|i: int, j: int| 0 <= i < j < init.len() implies init[i].rollback
                != init[j].rollback by {
                assert(live[i].rollback != live[j].rollback);
            }
        }
        lemma_restored_counts_matches(init, saved);
        assert(!live_ids(init).contains(last)) by {
            if live_ids(init).contains(last) {
                let j = choose|j: int|
                    0 <= j < init.len() && (#[trigger] init[j]).rollback.0 == last;
                assert(live[j].rollback != live[live.len() - 1].rollback);
            }
        }
        assert(live_ids(live) =~= live_ids(init).insert(last)) by {
            assert forall|id: u64| live_ids(live).contains(id) <==> live_ids(init).insert(
                last,
            ).contains(id) by {
                if live_ids(live).contains(id) {
                    let j = choose|j: int|
                        0 <= j < live.len() && (#[trigger] live[j]).rollback.0 == id;
                    if j < init.len() {
                        assert(init[j].rollback.0 == id);
                    }
                }
                if live_ids(init).contains(id) {
                    let j = choose|j: int|
                        0 <= j < init.len() && (#[trigger] init[j]).rollback.0 == id;
                    assert(live[j].rollback.0 == id);
                }
                if id == last {
                    assert(live[live.len() - 1].rollback.0 == id);
                }
            }
        }
        let common = live_ids(init).intersect(saved.dom());
        if saved.contains_key(last) {
            assert(live_ids(live).intersect(saved.dom()) =~= common.insert(last));
        } else {
            assert(live_ids(live).intersect(saved.dom()) =~= common);
        }
    }
}

/// When a load restores every saved component. Where the live objects all
/// have different rollback ids, as many objects get a saved component as
/// there are saved components exactly if every saved component belongs to
/// a live object; there are never more.
pub proof fn lemma_every_saved_component_restored<C>(live: Seq<Live>, saved: Map<u64, C>)
    requires
        distinct_rollbacks(live),
        saved.dom().finite(),
    ensures
        restored_of(live, saved) <= saved.len(),
        restored_of(live, saved) == saved.len() <==> saved.dom().subset_of(live_ids(live)),
{
    lemma_restored_counts_matches(live, saved);
    let common = live_ids(live).intersect(saved.dom());
    vstd::set_lib::lemma_len_subset(common, saved.dom());
    if saved.dom().subset_of(live_ids(live)) {
        assert(common =~= saved.dom());
    }
    if common.len() == saved.dom().len() {
        vstd::set_lib::lemma_subset_equality(common, saved.dom());
    }
}

} // verus!
