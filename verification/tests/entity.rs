use bevy_ggrs::snapshot::entity::{
    reconcile, Entity, GgrsEntitySnapshotPlugin, Kept, Reconciliation, Rollback, RollbackEntityMap,
};
use bevy_ggrs::snapshot::history::GgrsSnapshots;
use bevy_ggrs::RollbackFrameCount;

fn objects(ids: &[u64]) -> Vec<(Rollback, Entity)> {
    ids.iter().map(|id| (Rollback(*id), Entity(100 + *id))).collect()
}

#[test]
fn reconciliation_of_live_123_with_snapshot_234() {
    let live = objects(&[1, 2, 3]);
    let snapshot = objects(&[2, 3, 4]);
    let plan = reconcile(&snapshot, &live);
    assert_eq!(plan.despawn, vec![(Rollback(1), Entity(101))]);
    assert_eq!(plan.missing, vec![(Rollback(4), Entity(104))]);
    assert_eq!(
        plan.kept,
        vec![
            Kept { rollback: Rollback(2), old: Entity(102), current: Entity(102) },
            Kept { rollback: Rollback(3), old: Entity(103), current: Entity(103) },
        ]
    );

    let map = RollbackEntityMap::new(&plan, &vec![Entity(900)]).unwrap();
    assert_eq!(map.len(), 3);
    assert_eq!(map.get(Entity(102)), Some(Entity(102)));
    assert_eq!(map.get(Entity(103)), Some(Entity(103)));
    assert_eq!(map.get(Entity(104)), Some(Entity(900)));
    assert_eq!(map.get(Entity(101)), None);
    assert_eq!(map.get(Entity(900)), None);
}

#[test]
fn a_kept_object_maps_from_its_old_entity_to_its_current_one() {
    let snapshot = vec![(Rollback(7), Entity(1)), (Rollback(8), Entity(2))];
    let live = vec![(Rollback(8), Entity(20)), (Rollback(7), Entity(10))];
    let plan = reconcile(&snapshot, &live);
    assert!(plan.missing.is_empty());
    assert!(plan.despawn.is_empty());
    let map = RollbackEntityMap::new(&plan, &vec![]).unwrap();
    assert_eq!(map.get(Entity(1)), Some(Entity(10)));
    assert_eq!(map.get(Entity(2)), Some(Entity(20)));
    assert_eq!(map.get(Entity(10)), None);
}

#[test]
fn the_entity_map_needs_one_new_object_for_each_missing_one() {
    let plan = reconcile(&objects(&[1, 2]), &objects(&[]));
    assert_eq!(plan.missing.len(), 2);
    assert!(RollbackEntityMap::new(&plan, &vec![Entity(5)]).is_none());
    assert!(RollbackEntityMap::new(&plan, &vec![Entity(5), Entity(6), Entity(7)]).is_none());
    let map = RollbackEntityMap::new(&plan, &vec![Entity(5), Entity(6)]).unwrap();
    assert_eq!(map.get(Entity(101)), Some(Entity(5)));
    assert_eq!(map.get(Entity(102)), Some(Entity(6)));
}

#[test]
fn an_empty_snapshot_destroys_everything_alive() {
    let plan = reconcile(&objects(&[]), &objects(&[4, 5]));
    assert_eq!(
        plan,
        Reconciliation {
            kept: vec![],
            missing: vec![],
            despawn: vec![(Rollback(4), Entity(104)), (Rollback(5), Entity(105))],
        }
    );
    assert_eq!(RollbackEntityMap::empty().get(Entity(104)), None);
    assert_eq!(RollbackEntityMap::empty().len(), 0);
}

#[test]
fn entities_are_saved_and_reconciled_by_frame() {
    let mut snapshots: GgrsSnapshots<Vec<(Rollback, Entity)>> = GgrsSnapshots::new(4);
    GgrsEntitySnapshotPlugin::save(&mut snapshots, RollbackFrameCount(10), objects(&[1, 2]));
    GgrsEntitySnapshotPlugin::save(&mut snapshots, RollbackFrameCount(11), objects(&[1, 2, 3]));
    let live = objects(&[2, 3, 4]);
    let plan = GgrsEntitySnapshotPlugin::load(&snapshots, RollbackFrameCount(10), &live);
    assert_eq!(plan.missing, vec![(Rollback(1), Entity(101))]);
    assert_eq!(plan.despawn, vec![(Rollback(3), Entity(103)), (Rollback(4), Entity(104))]);
    assert_eq!(plan.kept.len(), 1);
    let same = GgrsEntitySnapshotPlugin::load(&snapshots, RollbackFrameCount(11), &objects(&[1, 2, 3]));
    assert!(same.missing.is_empty() && same.despawn.is_empty());
    assert_eq!(same.kept.len(), 3);
}
