use bevy_ggrs::snapshot::history::GgrsSnapshots;

#[test]
fn push_then_rollback_returns_the_snapshot() {
    let mut history: GgrsSnapshots<u32> = GgrsSnapshots::new(3);
    history.push(7, 70);
    assert_eq!(*history.rollback(7), 70);
    assert_eq!(history.peek(7), Some(&70));
    assert_eq!(history.len(), 1);
}

#[test]
fn history_keeps_the_newest_entries_of_the_window() {
    let mut history: GgrsSnapshots<u32> = GgrsSnapshots::new(3);
    for frame in 0..5 {
        history.push(frame, (frame as u32) * 10);
    }
    assert_eq!(history.len(), 3);
    assert_eq!(history.depth(), 3);
    assert_eq!(history.peek(0), None);
    assert_eq!(history.peek(1), None);
    assert_eq!(history.peek(2), Some(&20));
    assert_eq!(history.peek(3), Some(&30));
    assert_eq!(history.peek(4), Some(&40));
    assert_eq!(history.position(4), Some(0));
    assert_eq!(history.position(2), Some(2));
}

#[test]
fn eviction_goes_by_insertion_not_by_frame_number() {
    let mut history: GgrsSnapshots<&str> = GgrsSnapshots::new(2);
    history.push(100, "a");
    history.push(3, "b");
    history.push(50, "c");
    assert_eq!(history.peek(100), None);
    assert_eq!(history.peek(3), Some(&"b"));
    assert_eq!(history.peek(50), Some(&"c"));
}

#[test]
fn a_frame_saved_twice_is_found_in_its_newest_version() {
    let mut history: GgrsSnapshots<u32> = GgrsSnapshots::new(4);
    history.push(1, 10);
    history.push(2, 20);
    history.push(2, 21);
    assert_eq!(*history.rollback(2), 21);
    assert_eq!(history.position(2), Some(0));
    assert_eq!(*history.rollback(1), 10);
}

#[test]
fn a_window_of_zero_keeps_nothing() {
    let mut history: GgrsSnapshots<u32> = GgrsSnapshots::new(0);
    history.push(1, 10);
    assert_eq!(history.len(), 0);
    assert_eq!(history.peek(1), None);
}

#[test]
fn a_smaller_window_drops_the_oldest() {
    let mut history: GgrsSnapshots<u32> = GgrsSnapshots::new(4);
    for frame in 0..4 {
        history.push(frame, frame as u32);
    }
    history.set_depth(2);
    assert_eq!(history.len(), 2);
    assert_eq!(history.peek(3), Some(&3));
    assert_eq!(history.peek(2), Some(&2));
    assert_eq!(history.peek(1), None);
    history.set_depth(8);
    assert_eq!(history.len(), 2);
    assert_eq!(history.depth(), 8);
}

#[test]
fn loading_does_not_change_the_history() {
    let mut history: GgrsSnapshots<Vec<u8>> = GgrsSnapshots::new(2);
    history.push(5, vec![1, 2, 3]);
    assert_eq!(history.rollback(5), &vec![1, 2, 3]);
    assert_eq!(history.rollback(5), &vec![1, 2, 3]);
    history.push(6, vec![4]);
    assert_eq!(history.rollback(5), &vec![1, 2, 3]);
}

#[test]
fn a_cleared_history_is_empty_and_keeps_its_window() {
    let mut history: GgrsSnapshots<u32> = GgrsSnapshots::new(3);
    history.push(1, 10);
    history.push(2, 20);
    history.clear();
    assert_eq!(history.len(), 0);
    assert_eq!(history.depth(), 3);
    assert_eq!(history.peek(2), None);
    history.push(3, 30);
    assert_eq!(history.peek(3), Some(&30));
}
