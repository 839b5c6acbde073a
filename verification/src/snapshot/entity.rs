//! Making the live objects match those of an earlier frame.

use crate::snapshot::id_table::{id_table_entries, IdTable};
use crate::snapshot::history::{has_frame, is_newest_at, pushed, GgrsSnapshots, SnapshotEntry};
use crate::RollbackFrameCount;
use vstd::prelude::*;

verus! {

/// The stable identity of an object that takes part in rollback. It is
/// given once and stays with the object, whatever handle the host uses.
#[derive(Clone, Copy, Debug, PartialEq, Eq, Structural, Hash)]
pub struct Rollback(pub u64);

/// The handle by which the host's object store knows an object, as 64 bits.
#[derive(Clone, Copy, Debug, PartialEq, Eq, Structural, Hash)]
pub struct Entity(pub u64);

/// The entity of each rollback id in `pairs`. Where an id occurs more than
/// once, the last occurrence counts.
pub open spec fn index_of(pairs: Seq<(Rollback, Entity)>) -> Map<u64, u64>
    decreases pairs.len(),
{
    if pairs.len() == 0 {
        Map::empty()
    } else {
        index_of(pairs.drop_last()).insert(pairs.last().0.0, pairs.last().1.0)
    }
}

/// An object that a snapshot holds and that is still alive.
#[derive(Clone, Copy, Debug, PartialEq, Eq, Structural, Hash)]
pub struct Kept {
    pub rollback: Rollback,
    /// The object's entity when the snapshot was taken.
    pub old: Entity,
    /// The object's entity now.
    pub current: Entity,
}

/// The objects of the snapshot that are still alive, in the snapshot's
/// order.
pub open spec fn kept_of(snapshot: Seq<(Rollback, Entity)>, live: Map<u64, u64>) -> Seq<Kept>
    decreases snapshot.len(),
{
    if snapshot.len() == 0 {
        Seq::empty()
    } else {
        let rest = kept_of(snapshot.drop_last(), live);
        let (rollback, old) = snapshot.last();
        if live.contains_key(rollback.0) {
            rest.push(Kept { rollback, old, current: Entity(live[rollback.0]) })
        } else {
            rest
        }
    }
}

/// The pairs of `pairs` whose rollback id is not a key of `other`, in their
/// order.
pub open spec fn unmatched_of(pairs: Seq<(Rollback, Entity)>, other: Map<u64, u64>) -> Seq<
    (Rollback, Entity),
>
    decreases pairs.len(),
{
    if pairs.len() == 0 {
        Seq::empty()
    } else {
        let rest = unmatched_of(pairs.drop_last(), other);
        if other.contains_key(pairs.last().0.0) {
            rest
        } else {
            rest.push(pairs.last())
        }
    }
}

/// What has to happen to the live objects so that they are those of a
/// snapshot.
#[derive(Debug, PartialEq, Eq)]
pub struct Reconciliation {
    /// Objects that exist on both sides and stay.
    pub kept: Vec<Kept>,
    /// Objects of the snapshot that were destroyed since, with their
    /// entities as of then. Each needs a new, empty object in its place.
    pub missing: Vec<(Rollback, Entity)>,
    /// Live objects that did not exist then and are to be destroyed.
    pub despawn: Vec<(Rollback, Entity)>,
}

fn build_index(pairs: &Vec<(Rollback, Entity)>) -> (r: IdTable)
    ensures
        id_table_entries(r) == index_of(pairs@),
{
    let mut table = IdTable::empty();
    let mut i: usize = 0;
    while i < pairs.len()
        invariant
            i <= pairs@.len(),
            id_table_entries(table) == index_of(pairs@.subrange(0, i as int)),
        decreases pairs@.len() - i,
    {
        let (rollback, entity) = pairs[i];
        table.insert(rollback.0, entity.0);
        proof {
            assert(pairs@.subrange(0, i + 1).drop_last() =~= pairs@.subrange(0, i as int));
        }
        i += 1;
    }
    proof {
        assert(pairs@.subrange(0, i as int) =~= pairs@);
    }
    table
}

/// Compares the objects of a snapshot with the live ones, each given as
/// pairs of rollback id and entity. An object on both sides is kept, one
/// only in the snapshot is missing, one only alive is to be destroyed.
pub fn reconcile(snapshot: &Vec<(Rollback, Entity)>, live: &Vec<(Rollback, Entity)>) -> (r:
    Reconciliation)
    ensures
        r.kept@ == kept_of(snapshot@, index_of(live@)),
        r.missing@ == unmatched_of(snapshot@, index_of(live@)),
        r.despawn@ == unmatched_of(live@, index_of(snapshot@)),
{
    let live_index = build_index(live);
    let snapshot_index = build_index(snapshot);
    let mut kept: Vec<Kept> = Vec::new();
    let mut missing: Vec<(Rollback, Entity)> = Vec::new();
    let mut despawn: Vec<(Rollback, Entity)> = Vec::new();
    let mut i: usize = 0;
    while i < snapshot.len()
        invariant
            i <= snapshot@.len(),
            id_table_entries(live_index) == index_of(live@),
            kept@ == kept_of(snapshot@.subrange(0, i as int), index_of(live@)),
            missing@ == unmatched_of(snapshot@.subrange(0, i as int), index_of(live@)),
        decreases snapshot@.len() - i,
    {
        let (rollback, old) = snapshot[i];
        match live_index.get(rollback.0) {
            Some(current) => kept.push(Kept { rollback, old, current: Entity(current) }),
            None => missing.push((rollback, old)),
        }
        proof {
            assert(snapshot@.subrange(0, i + 1).drop_last() =~= snapshot@.subrange(0, i as int));
        }
        i += 1;
    }
    let mut j: usize = 0;
    while j < live.len()
        invariant
            j <= live@.len(),
            id_table_entries(snapshot_index) == index_of(snapshot@),
            despawn@ == unmatched_of(live@.subrange(0, j as int), index_of(snapshot@)),
        decreases live@.len() - j,
    {
        let (rollback, current) = live[j];
        if snapshot_index.get(rollback.0).is_none() {
            despawn.push((rollback, current));
        }
        proof {
            assert(live@.subrange(0, j + 1).drop_last() =~= live@.subrange(0, j as int));
        }
        j += 1;
    }
    proof {
        assert(snapshot@.subrange(0, i as int) =~= snapshot@);
        assert(live@.subrange(0, j as int) =~= live@);
    }
    Reconciliation { kept, missing, despawn }
}

/// Saves which rollback objects exist, and on load makes the live objects
/// match those of the frame that is loaded.
pub struct GgrsEntitySnapshotPlugin;

impl GgrsEntitySnapshotPlugin {
    /// Saves `live`, the rollback objects that exist at `frame`, as the
    /// newest snapshot.
    pub fn save(
        snapshots: &mut GgrsSnapshots<Vec<(Rollback, Entity)>>,
        frame: RollbackFrameCount,
        live: Vec<(Rollback, Entity)>,
    )
        ensures
            final(snapshots).spec_depth() == old(snapshots).spec_depth(),
            final(snapshots)@ == pushed(
                old(snapshots)@,
                old(snapshots).spec_depth(),
                (SnapshotEntry { frame: frame.0, snapshot: live }),
            ),
    {
        snapshots.push(frame.0, live);
    }

    /// Compares `live`, the rollback objects that exist now, with those of
    /// the snapshot of `frame`. The caller knows that a snapshot of that
    /// frame is stored. This comes before any other load handler: they
    /// need the entity map that follows from it.
    pub fn load(
        snapshots: &GgrsSnapshots<Vec<(Rollback, Entity)>>,
        frame: RollbackFrameCount,
        live: &Vec<(Rollback, Entity)>,
    ) -> (r: Reconciliation)
        requires
            has_frame(snapshots@, frame.0),
        ensures
            exists|i: int|
                is_newest_at(snapshots@, frame.0, i) && {
                    let snapshot = snapshots@[i].snapshot@;
                    &&& r.kept@ == kept_of(snapshot, index_of(live@))
                    &&& r.missing@ == unmatched_of(snapshot, index_of(live@))
                    &&& r.despawn@ == unmatched_of(live@, index_of(snapshot))
                },
    {
        reconcile(snapshots.rollback(frame.0), live)
    }
}

/// Whether `pairs` holds an object with rollback id `id`.
pub open spec fn has_rollback(pairs: Seq<(Rollback, Entity)>, id: Rollback) -> bool {
    exists|i: int| 0 <= i < pairs.len() && (#[trigger] pairs[i]).0 == id
}

/// Whether `kept` holds an object with rollback id `id`.
pub open spec fn keeps_rollback(kept: Seq<Kept>, id: Rollback) -> bool {
    exists|i: int| 0 <= i < kept.len() && (#[trigger] kept[i]).rollback == id
}

/// The keys of an index are the rollback ids of its pairs.
pub proof fn lemma_index_keys(pairs: Seq<(Rollback, Entity)>, id: Rollback)
    ensures
        index_of(pairs).contains_key(id.0) <==> has_rollback(pairs, id),
    decreases pairs.len(),
{
    if pairs.len() > 0 {
        let init = pairs.drop_last();
        lemma_index_keys(init, id);
        if has_rollback(pairs, id) {
            let i = choose|i: int| 0 <= i < pairs.len() && (#[trigger] pairs[i]).0 == id;
            if i < init.len() {
                assert(init[i].0 == id);
            }
        }
        if has_rollback(init, id) {
            let i = choose|i: int| 0 <= i < init.len() && (#[trigger] init[i]).0 == id;
            assert(pairs[i].0 == id);
        }
        if pairs.last().0 == id {
            assert(pairs[pairs.len() - 1].0 == id);
        }
    }
}

/// The kept objects are those of the snapshot that are alive, each with the
/// entity that the live index gives for it.
pub proof fn lemma_kept_objects(
    snapshot: Seq<(Rollback, Entity)>,
    live: Map<u64, u64>,
    id: Rollback,
)
    ensures
        keeps_rollback(kept_of(snapshot, live), id) <==> has_rollback(snapshot, id)
            && live.contains_key(id.0),
        forall|k: int|
            0 <= k < kept_of(snapshot, live).len() ==> {
                let kept = #[trigger] kept_of(snapshot, live)[k];
                &&& live.contains_key(kept.rollback.0)
                &&& kept.current == Entity(live[kept.rollback.0])
                &&& snapshot.contains((kept.rollback, kept.old))
            },
    decreases snapshot.len(),
{
    if snapshot.len() > 0 {
        let init = snapshot.drop_last();
        let rest = kept_of(init, live);
        let all = kept_of(snapshot, live);
        lemma_kept_objects(init, live, id);
        if has_rollback(snapshot, id) && live.contains_key(id.0) {
            let i = choose|i: int| 0 <= i < snapshot.len() && (#[trigger] snapshot[i]).0 == id;
            if i < init.len() {
                assert(init[i].0 == id);
                let k = choose|k: int| 0 <= k < rest.len() && (#[trigger] rest[k]).rollback == id;
                assert(all[k].rollback == id);
            } else {
                assert(all[all.len() - 1].rollback == id);
            }
        }
        if keeps_rollback(all, id) {
            let k = choose|k: int| 0 <= k < all.len() && (#[trigger] all[k]).rollback == id;
            if k < rest.len() {
                assert(rest[k].rollback == id);
                let i = choose|i: int| 0 <= i < init.len() && (#[trigger] init[i]).0 == id;
                assert(snapshot[i].0 == id);
            } else {
                assert(snapshot[snapshot.len() - 1].0 == id);
            }
        }
        assert forall|k: int| 0 <= k < all.len() implies {
            let kept = #[trigger] all[k];
            &&& live.contains_key(kept.rollback.0)
            &&& kept.current == Entity(live[kept.rollback.0])
            &&& snapshot.contains((kept.rollback, kept.old))
        } by {
            let kept = all[k];
            if k < rest.len() {
                assert(rest[k] == kept);
                let i = choose|i: int|
                    0 <= i < init.len() && init[i] == (kept.rollback, kept.old);
                assert(snapshot[i] == (kept.rollback, kept.old));
            } else {
                assert(snapshot[snapshot.len() - 1] == (kept.rollback, kept.old));
            }
        }
    }
}

/// The unmatched pairs are the pairs whose rollback id the other side does
/// not have.
pub proof fn lemma_unmatched_objects(
    pairs: Seq<(Rollback, Entity)>,
    other: Map<u64, u64>,
    id: Rollback,
)
    ensures
        has_rollback(unmatched_of(pairs, other), id) <==> has_rollback(pairs, id)
            && !other.contains_key(id.0),
        forall|k: int|
            0 <= k < unmatched_of(pairs, other).len() ==> pairs.contains(
                #[trigger] unmatched_of(pairs, other)[k],
            ),
    decreases pairs.len(),
{
    if pairs.len() > 0 {
        let init = pairs.drop_last();
        let rest = unmatched_of(init, other);
        let all = unmatched_of(pairs, other);
        lemma_unmatched_objects(init, other, id);
        if has_rollback(pairs, id) && !other.contains_key(id.0) {
            let i = choose|i: int| 0 <= i < pairs.len() && (#[trigger] pairs[i]).0 == id;
            if i < init.len() {
                assert(init[i].0 == id);
                let k = choose|k: int| 0 <= k < rest.len() && (#[trigger] rest[k]).0 == id;
                assert(all[k].0 == id);
            } else {
                assert(all[all.len() - 1].0 == id);
            }
        }
        if has_rollback(all, id) {
            let k = choose|k: int| 0 <= k < all.len() && (#[trigger] all[k]).0 == id;
            if k < rest.len() {
                assert(rest[k].0 == id);
                let i = choose|i: int| 0 <= i < init.len() && (#[trigger] init[i]).0 == id;
                assert(pairs[i].0 == id);
            } else {
                assert(pairs[pairs.len() - 1].0 == id);
            }
        }
        assert forall|k: int| 0 <= k < all.len() implies pairs.contains(#[trigger] all[k]) by {
            if k < rest.len() {
                assert(rest[k] == all[k]);
                let i = choose|i: int| 0 <= i < init.len() && init[i] == all[k];
                assert(pairs[i] == all[k]);
            } else {
                assert(pairs[pairs.len() - 1] == all[k]);
            }
        }
    }
}

/// Every object of the snapshot is either kept or missing, never both.
pub proof fn lemma_snapshot_is_split(snapshot: Seq<(Rollback, Entity)>, live: Map<u64, u64>)
    ensures
        kept_of(snapshot, live).len() + unmatched_of(snapshot, live).len() == snapshot.len(),
    decreases snapshot.len(),
{
    if snapshot.len() > 0 {
        lemma_snapshot_is_split(snapshot.drop_last(), live);
    }
}

/// After a reconciliation the live objects are exactly those of the
/// snapshot: an object is alive afterwards if it was alive and is not
/// destroyed, or if it was missing and got a new object in its place; and
/// that holds of a rollback id exactly when the snapshot has it.
pub proof fn lemma_reconciled_objects_match_snapshot(
    snapshot: Seq<(Rollback, Entity)>,
    live: Seq<(Rollback, Entity)>,
    id: Rollback,
)
    ensures
        ({
            let missing = unmatched_of(snapshot, index_of(live));
            let despawn = unmatched_of(live, index_of(snapshot));
            (has_rollback(live, id) && !has_rollback(despawn, id)) || has_rollback(missing, id)
        }) <==> has_rollback(snapshot, id),
        keeps_rollback(kept_of(snapshot, index_of(live)), id) <==> has_rollback(snapshot, id)
            && has_rollback(live, id),
{
    lemma_index_keys(snapshot, id);
    lemma_index_keys(live, id);
    lemma_unmatched_objects(snapshot, index_of(live), id);
    lemma_unmatched_objects(live, index_of(snapshot), id);
    lemma_kept_objects(snapshot, index_of(live), id);
}

/// For each object of a snapshot its entity then and its entity now: the
/// kept objects first, then each missing object with the new object that
/// was made for it, `spawned` holding those in the order of `missing`.
pub open spec fn entity_pairs(
    kept: Seq<Kept>,
    missing: Seq<(Rollback, Entity)>,
    spawned: Seq<Entity>,
) -> Seq<(Entity, Entity)> {
    Seq::new(kept.len(), |i: int| (kept[i].old, kept[i].current)) + Seq::new(
        missing.len(),
        |i: int| (missing[i].1, spawned[i]),
    )
}

/// The map that takes the first entity of each pair to the second. Where
/// a first entity occurs more than once, the last pair counts.
pub open spec fn entity_map_of(pairs: Seq<(Entity, Entity)>) -> Map<u64, u64>
    decreases pairs.len(),
{
    if pairs.len() == 0 {
        Map::empty()
    } else {
        entity_map_of(pairs.drop_last()).insert(pairs.last().0.0, pairs.last().1.0)
    }
}

/// From the entity that an object had when a snapshot was taken to the
/// entity that it has now. It is made anew by every load, for the handlers
/// that restore references between objects.
pub struct RollbackEntityMap {
    table: IdTable,
}

impl RollbackEntityMap {
    /// The map, from the bits of the old entity to the bits of the new one.
    pub closed spec fn view(&self) -> Map<u64, u64> {
        id_table_entries(self.table)
    }

    /// The map of a load that has not happened: no entity maps to any.
    pub fn empty() -> (r: Self)
        ensures
            r@ == Map::<u64, u64>::empty(),
    {
        RollbackEntityMap { table: IdTable::empty() }
    }

    /// The map after a reconciliation. `spawned` holds the new objects made
    /// for the missing ones, in the order of `plan.missing`; with any other
    /// number of them there is no map.
    pub fn new(plan: &Reconciliation, spawned: &Vec<Entity>) -> (r: Option<Self>)
        ensures
            r.is_some() <==> spawned@.len() == plan.missing@.len(),
            r matches Some(map) ==> map@ == entity_map_of(
                entity_pairs(plan.kept@, plan.missing@, spawned@),
            ),
    {
        if spawned.len() != plan.missing.len() {
            return None;
        }
        let ghost pairs = entity_pairs(plan.kept@, plan.missing@, spawned@);
        let mut table = IdTable::empty();
        let mut i: usize = 0;
        while i < plan.kept.len()
            invariant
                i <= plan.kept@.len(),
                pairs == entity_pairs(plan.kept@, plan.missing@, spawned@),
                spawned@.len() == plan.missing@.len(),
                id_table_entries(table) == entity_map_of(pairs.subrange(0, i as int)),
            decreases plan.kept@.len() - i,
        {
            let kept = plan.kept[i];
            table.insert(kept.old.0, kept.current.0);
            proof {
                assert(pairs.subrange(0, i + 1).drop_last() =~= pairs.subrange(0, i as int));
            }
            i += 1;
        }
        let mut j: usize = 0;
        while j < plan.missing.len()
            invariant
                j <= plan.missing@.len(),
                pairs == entity_pairs(plan.kept@, plan.missing@, spawned@),
                spawned@.len() == plan.missing@.len(),
                id_table_entries(table) == entity_map_of(
                    pairs.subrange(0, plan.kept@.len() + j),
                ),
            decreases plan.missing@.len() - j,
        {
            let (_, old) = plan.missing[j];
            let current = spawned[j];
            table.insert(old.0, current.0);
            proof {
                let n = plan.kept@.len() + j;
                assert(pairs.subrange(0, n + 1).drop_last() =~= pairs.subrange(0, n));
            }
            j += 1;
        }
        proof {
            assert(pairs.subrange(0, pairs.len() as int) =~= pairs);
        }
        Some(RollbackEntityMap { table })
    }

    /// The number of entities that the map translates.
    pub fn len(&self) -> (r: usize)
        ensures
            r == self@.dom().len(),
    {
        self.table.len()
    }

    /// The entity that the object has now which had `old` when the snapshot
    /// was taken, if the snapshot had such an object.
    pub fn get(&self, old: Entity) -> (r: Option<Entity>)
        ensures
            r == if self@.contains_key(old.0) {
                Some(Entity(self@[old.0]))
            } else {
                None
            },
    {
        match self.table.get(old.0) {
            Some(current) => Some(Entity(current)),
            None => None,
        }
    }
}

/// An entity map knows exactly the first entities of its pairs, and takes
/// each to the second entity of its pair as long as no later pair starts
/// with the same entity.
pub proof fn lemma_entity_map_entries(pairs: Seq<(Entity, Entity)>, i: int)
    requires
        0 <= i < pairs.len(),
        forall|j: int| i < j < pairs.len() ==> pairs[j].0 != pairs[i].0,
    ensures
        entity_map_of(pairs).contains_key(pairs[i].0.0),
        entity_map_of(pairs)[pairs[i].0.0] == pairs[i].1.0,
    decreases pairs.len(),
{
    if i < pairs.len() - 1 {
        let init = pairs.drop_last();
        assert(init[i] == pairs[i]);
        assert forall|j: int| i < j < init.len() implies init[j].0 != init[i].0 by {
            assert(init[j] == pairs[j]);
        }
        lemma_entity_map_entries(init, i);
        assert(pairs.last().0 != pairs[i].0);
    }
}

/// Whether no two objects of `pairs` have the same entity.
pub open spec fn distinct_entities(pairs: Seq<(Rollback, Entity)>) -> bool {
    forall|i: int, j: int| 0 <= i < j < pairs.len() ==> pairs[i].1 != pairs[j].1
}

/// Whether no two pairs start with the same entity.
pub open spec fn distinct_firsts(pairs: Seq<(Entity, Entity)>) -> bool {
    forall|i: int, j: int| 0 <= i < j < pairs.len() ==> pairs[i].0 != pairs[j].0
}

/// Where no two objects of the snapshot share an entity, the old entities
/// of the kept and of the missing objects are all different from each
/// other.
pub proof fn lemma_split_keeps_entities_distinct(
    snapshot: Seq<(Rollback, Entity)>,
    live: Map<u64, u64>,
)
    requires
        distinct_entities(snapshot),
    ensures
        forall|a: int, b: int|
            0 <= a < b < kept_of(snapshot, live).len() ==> kept_of(snapshot, live)[a].old
                != kept_of(snapshot, live)[b].old,
        distinct_entities(unmatched_of(snapshot, live)),
        forall|a: int, b: int|
            0 <= a < kept_of(snapshot, live).len() && 0 <= b < unmatched_of(snapshot, live).len()
                ==> kept_of(snapshot, live)[a].old != unmatched_of(snapshot, live)[b].1,
    decreases snapshot.len(),
{
    if snapshot.len() > 0 {
        let init = snapshot.drop_last();
        let last = snapshot.last();
        let kept_init = kept_of(init, live);
        let missing_init = unmatched_of(init, live);
        let kept = kept_of(snapshot, live);
        let missing = unmatched_of(snapshot, live);
        assert(distinct_entities(init)) by {
            assert forall|i: int, j: int| 0 <= i < j < init.len() implies init[i].1
                != init[j].1 by {
                assert(snapshot[i].1 != snapshot[j].1);
            }
        }
        lemma_split_keeps_entities_distinct(init, live);
        lemma_kept_objects(init, live, last.0);
        lemma_unmatched_objects(init, live, last.0);
        assert forall|a: int| 0 <= a < kept_init.len() implies kept_init[a].old != last.1 by {
            let k = kept_init[a];
            let i = choose|i: int| 0 <= i < init.len() && init[i] == (k.rollback, k.old);
            assert(snapshot[i].1 != snapshot[snapshot.len() - 1].1);
        }
        assert forall|b: int| 0 <= b < missing_init.len() implies missing_init[b].1 != last.1 by {
            let i = choose|i: int| 0 <= i < init.len() && init[i] == missing_init[b];
            assert(snapshot[i].1 != snapshot[snapshot.len() - 1].1);
        }
        assert forall|a: int, b: int| 0 <= a < b < kept.len() implies kept[a].old
            != kept[b].old by {
            if b < kept_init.len() {
                assert(kept_init[a].old != kept_init[b].old);
            } else {
                assert(kept[a] == kept_init[a]);
            }
        }
        assert forall|a: int, b: int| 0 <= a < b < missing.len() implies missing[a].1
            != missing[b].1 by {
            if b < missing_init.len() {
                assert(missing_init[a].1 != missing_init[b].1);
            } else {
                assert(missing[a] == missing_init[a]);
            }
        }
        assert forall|a: int, b: int|
            0 <= a < kept.len() && 0 <= b < missing.len() implies kept[a].old != missing[b].1 by {
            if a < kept_init.len() && b < missing_init.len() {
                assert(kept_init[a].old != missing_init[b].1);
            } else if a < kept_init.len() {
                assert(kept[a] == kept_init[a]);
            } else {
                assert(missing[b] == missing_init[b]);
            }
        }
    }
}

/// The entity map translates every object of the snapshot. Where no two
/// objects of the snapshot share an entity and one new object was made for
/// each missing one, the map takes the old entity of each kept object to
/// its current one and the old entity of each missing object to the new
/// object made for it, and knows as many entities as the snapshot has
/// objects.
pub proof fn lemma_entity_map_translates_snapshot(
    snapshot: Seq<(Rollback, Entity)>,
    live: Seq<(Rollback, Entity)>,
    spawned: Seq<Entity>,
)
    requires
        distinct_entities(snapshot),
        spawned.len() == unmatched_of(snapshot, index_of(live)).len(),
    ensures
        ({
            let kept = kept_of(snapshot, index_of(live));
            let missing = unmatched_of(snapshot, index_of(live));
            let map = entity_map_of(entity_pairs(kept, missing, spawned));
            &&& forall|k: int|
                0 <= k < kept.len() ==> map.contains_key((#[trigger] kept[k]).old.0)
                    && map[kept[k].old.0] == kept[k].current.0
            &&& forall|k: int|
                0 <= k < missing.len() ==> map.contains_key((#[trigger] missing[k]).1.0)
                    && map[missing[k].1.0] == spawned[k].0
            &&& map.dom().finite()
            &&& map.dom().len() == snapshot.len()
        }),
{
    let kept = kept_of(snapshot, index_of(live));
    let missing = unmatched_of(snapshot, index_of(live));
    let pairs = entity_pairs(kept, missing, spawned);
    let map = entity_map_of(pairs);
    lemma_split_keeps_entities_distinct(snapshot, index_of(live));
    lemma_snapshot_is_split(snapshot, index_of(live));
    assert(distinct_firsts(pairs)) by {
        assert forall|i: int, j: int| 0 <= i < j < pairs.len() implies pairs[i].0 != pairs[j].0 by {
            if j < kept.len() {
                assert(kept[i].old != kept[j].old);
            } else if i < kept.len() {
                assert(kept[i].old != missing[j - kept.len()].1);
            } else {
                assert(missing[i - kept.len()].1 != missing[j - kept.len()].1);
            }
        }
    }
    assert forall|k: int| 0 <= k < kept.len() implies map.contains_key((#[trigger] kept[k]).old.0)
        && map[kept[k].old.0] == kept[k].current.0 by {
        assert(pairs[k] == (kept[k].old, kept[k].current));
        lemma_entity_map_entries(pairs, k);
    }
    assert forall|k: int| 0 <= k < missing.len() implies map.contains_key(
        (#[trigger] missing[k]).1.0,
    ) && map[missing[k].1.0] == spawned[k].0 by {
        assert(pairs[kept.len() + k] == (missing[k].1, spawned[k]));
        lemma_entity_map_entries(pairs, kept.len() + k);
    }
    lemma_entity_map_size(pairs);
}

/// An entity map of pairs that all start with different entities knows as
/// many entities as there are pairs.
pub proof fn lemma_entity_map_size(pairs: Seq<(Entity, Entity)>)
    requires
        distinct_firsts(pairs),
    ensures
        entity_map_of(pairs).dom().finite(),
        entity_map_of(pairs).dom().len() == pairs.len(),
        forall|e: Entity|
            entity_map_of(pairs).contains_key(e.0) ==> exists|i: int|
                0 <= i < pairs.len() && (#[trigger] pairs[i]).0 == e,
    decreases pairs.len(),
{
    if pairs.len() > 0 {
        let init = pairs.drop_last();
        let last = pairs.last();
        assert(distinct_firsts(init)) by {
            assert forall|i: int, j: int| 0 <= i < j < init.len() implies init[i].0
                != init[j].0 by {
                assert(pairs[i].0 != pairs[j].0);
            }
        }
        lemma_entity_map_size(init);
        let before = entity_map_of(init);
        if before.contains_key(last.0.0) {
            let i = choose|i: int| 0 <= i < init.len() && (#[trigger] init[i]).0 == last.0;
            assert(pairs[i].0 != pairs[pairs.len() - 1].0);
        }
        assert(entity_map_of(pairs).dom() =~= before.dom().insert(last.0.0));
        assert forall|e: Entity| entity_map_of(pairs).contains_key(e.0) implies exists|i: int|
            0 <= i < pairs.len() && (#[trigger] pairs[i]).0 == e by {
            if e == last.0 {
                assert(pairs[pairs.len() - 1].0 == e);
            } else {
                assert(before.contains_key(e.0));
                let i = choose|i: int| 0 <= i < init.len() && (#[trigger] init[i]).0 == e;
                assert(pairs[i].0 == e);
            }
        }
    } else {
        assert(entity_map_of(pairs).dom() =~= Set::<u64>::empty());
    }
}

} // verus!
