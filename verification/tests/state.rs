use bevy_ggrs::component_snapshot::{
    ComponentHistory, ComponentRollbackPlugin, GgrsComponentSnapshot, Live,
};
use bevy_ggrs::frame::Frame;
use bevy_ggrs::resource_snapshot::{ResourceHistory, ResourceRollbackPlugin};
use bevy_ggrs::session::Session;
use bevy_ggrs::snapshot::entity::{Entity, Rollback};
use bevy_ggrs::snapshot::history::GgrsSnapshots;
use bevy_ggrs::snapshot::resource_copy::GgrsResourceSnapshotCopyPlugin;
use bevy_ggrs::snapshot::restore::{restore, Restore};
use bevy_ggrs::snapshot::strategy::{store_if_present, CloneStrategy, CopyStrategy, Strategy};
use bevy_ggrs::RollbackFrameCount;

fn session(max_prediction: usize) -> Session {
    Session::SyncTest { num_players: 1, max_prediction }
}

#[test]
fn a_change_takes_the_state_to_what_was_saved() {
    assert_eq!(restore::<u8>(false, None), Restore::Keep);
    assert_eq!(restore(false, Some(&3u8)), Restore::Insert(&3));
    assert_eq!(restore::<u8>(true, None), Restore::Remove);
    assert_eq!(restore(true, Some(&3u8)), Restore::Overwrite(&3));
}

#[test]
fn a_resource_comes_back_as_it_was_saved() {
    let mut history: ResourceHistory<String> =
        ResourceRollbackPlugin.for_type::<String>().with_config::<u8>().build();
    history.save(Some("one".to_owned()), Frame(1), &session(2));
    assert_eq!(history.load(true, Frame(1)), Some(Restore::Overwrite(&"one".to_owned())));
    assert_eq!(history.load(false, Frame(1)), Some(Restore::Insert(&"one".to_owned())));
    history.save(None, Frame(2), &session(2));
    assert_eq!(history.load(true, Frame(2)), Some(Restore::Remove));
    assert_eq!(history.load(false, Frame(2)), Some(Restore::Keep));
    assert_eq!(history.load(true, Frame(3)), None);
    history.save(Some("three".to_owned()), Frame(3), &session(2));
    assert_eq!(history.load(true, Frame(1)), None);
    assert_eq!(history.load(true, Frame(3)), Some(Restore::Overwrite(&"three".to_owned())));
}

#[test]
fn a_resource_history_follows_the_window_of_the_session() {
    let mut history: ResourceHistory<u32> = ResourceHistory::default();
    for frame in 0..5 {
        history.save(Some(frame as u32), Frame(frame), &session(4));
    }
    assert_eq!(history.load(true, Frame(0)), None);
    assert_eq!(history.load(true, Frame(1)), Some(Restore::Overwrite(&1)));
    history.save(Some(5), Frame(5), &session(1));
    assert_eq!(history.load(true, Frame(4)), None);
    assert_eq!(history.load(true, Frame(5)), Some(Restore::Overwrite(&5)));
    history.save(Some(6), Frame(6), &Session::Spectator { running: true, frames_behind_host: 0 });
    assert_eq!(history.load(true, Frame(6)), None);
}

#[test]
fn components_come_back_by_rollback_id() {
    let mut history: ComponentHistory<&str> =
        ComponentRollbackPlugin.for_type::<&str>().with_config::<u8>().build();
    history.save(vec![(Rollback(1), "a"), (Rollback(2), "b")], Frame(7), &session(3));
    history.save(vec![(Rollback(1), "c")], Frame(8), &session(3));
    let live = vec![
        Live { entity: Entity(10), rollback: Rollback(1), present: true },
        Live { entity: Entity(20), rollback: Rollback(2), present: false },
        Live { entity: Entity(30), rollback: Rollback(3), present: true },
        Live { entity: Entity(40), rollback: Rollback(4), present: false },
    ];
    let back = history.load(&live, Frame(7));
    assert_eq!(
        back.changes,
        vec![
            (Entity(10), Restore::Overwrite(&"a")),
            (Entity(20), Restore::Insert(&"b")),
            (Entity(30), Restore::Remove),
            (Entity(40), Restore::Keep),
        ]
    );
    assert_eq!(back.restored, 2);
    assert_eq!(back.saved, 2);
    let newer = history.load(&live, Frame(8));
    assert_eq!(newer.changes[0], (Entity(10), Restore::Overwrite(&"c")));
    assert_eq!(newer.changes[1], (Entity(20), Restore::Keep));
    assert_eq!((newer.restored, newer.saved), (1, 1));
}

#[test]
fn a_saved_component_without_a_live_object_shows_in_the_counts() {
    let mut history: ComponentHistory<u8> = ComponentHistory::default();
    history.save(vec![(Rollback(1), 1), (Rollback(2), 2)], Frame(0), &session(1));
    let live = vec![Live { entity: Entity(10), rollback: Rollback(1), present: true }];
    let back = history.load(&live, Frame(0));
    assert_eq!(back.restored, 1);
    assert_eq!(back.saved, 2);
}

#[test]
fn a_copied_resource_comes_back_bit_for_bit() {
    let mut snapshots: GgrsSnapshots<Option<[u8; 4]>> = GgrsSnapshots::new(2);
    let value = [1u8, 2, 3, 4];
    GgrsResourceSnapshotCopyPlugin::save(&mut snapshots, RollbackFrameCount(3), Some(&value));
    assert_eq!(
        GgrsResourceSnapshotCopyPlugin::load(&snapshots, RollbackFrameCount(3), true),
        Restore::Overwrite(&value)
    );
    GgrsResourceSnapshotCopyPlugin::<[u8; 4]>::save(&mut snapshots, RollbackFrameCount(4), None);
    assert_eq!(
        GgrsResourceSnapshotCopyPlugin::load(&snapshots, RollbackFrameCount(4), true),
        Restore::Remove
    );
    assert_eq!(
        GgrsResourceSnapshotCopyPlugin::load(&snapshots, RollbackFrameCount(3), false),
        Restore::Insert(&value)
    );
}

#[test]
fn frame_counters_convert_to_their_number() {
    assert_eq!(i32::from(RollbackFrameCount(-7)), -7);
    assert_eq!(i32::from(bevy_ggrs::ConfirmedFrameCount(12)), 12);
    assert_eq!(bevy_ggrs::MaxPredictionWindow(8).0, 8);
}

#[test]
fn copied_state_comes_back_bit_for_bit() {
    let stored = CopyStrategy::<(u8, i64)>::store(&(3, -4));
    assert_eq!(stored, (3, -4));
    assert_eq!(CopyStrategy::<(u8, i64)>::load(&stored), (3, -4));
    let mut target = (0u8, 0i64);
    CopyStrategy::<(u8, i64)>::update(&mut target, &stored);
    assert_eq!(target, (3, -4));
}

#[test]
fn cloned_state_comes_back_equal() {
    let state = vec!["a".to_owned(), "b".to_owned()];
    let stored = CloneStrategy::<Vec<String>>::store(&state);
    assert_eq!(stored, state);
    assert_eq!(CloneStrategy::<Vec<String>>::load(&stored), state);
    let mut target = vec![];
    CloneStrategy::<Vec<String>>::update(&mut target, &stored);
    assert_eq!(target, state);
}

#[test]
fn absent_state_is_stored_as_absent() {
    assert_eq!(store_if_present::<CopyStrategy<u8>>(None), None);
    assert_eq!(store_if_present::<CopyStrategy<u8>>(Some(&7)), Some(7));
    assert_eq!(store_if_present::<CloneStrategy<String>>(Some(&"x".to_owned())), Some("x".to_owned()));
}

#[test]
fn saving_and_loading_without_advancing_reproduces_the_state() {
    let mut history: ResourceHistory<(u32, u32)> = ResourceHistory::default();
    let state = (17, 4);
    history.save(Some(CopyStrategy::<(u32, u32)>::store(&state)), Frame(9), &session(3));
    let mut live = (0, 0);
    for _ in 0..3 {
        match history.load(true, Frame(9)) {
            Some(Restore::Overwrite(stored)) => CopyStrategy::<(u32, u32)>::update(&mut live, stored),
            other => panic!("unexpected change: {:?}", other),
        }
        assert_eq!(live, state);
    }
}

#[test]
fn a_component_snapshot_finds_components_by_rollback_id() {
    let snapshot = GgrsComponentSnapshot::new(vec![
        (Rollback(5), "five"),
        (Rollback(9), "nine"),
        (Rollback(5), "five again"),
    ]);
    assert_eq!(snapshot.len(), 2);
    assert_eq!(snapshot.get(Rollback(5)), Some(&"five again"));
    assert_eq!(snapshot.get(Rollback(9)), Some(&"nine"));
    assert_eq!(snapshot.get(Rollback(0)), None);
    let empty: GgrsComponentSnapshot<u8> = GgrsComponentSnapshot::new(vec![]);
    assert_eq!(empty.len(), 0);
    assert_eq!(empty.get(Rollback(5)), None);
}
