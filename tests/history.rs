use white_hole::HistoryTrack;

fn track(ids: &[i64], cursor: usize) -> HistoryTrack {
    let mut h = HistoryTrack::new();
    for (i, id) in ids.iter().enumerate() {
        h.insert(*id, i + 1);
    }
    while h.cursor() as usize > cursor {
        assert!(h.back(true));
    }
    h
}

#[test]
fn scenario_empty_insert() {
    let mut h = HistoryTrack::new();
    assert_eq!(h.cursor(), -1);
    h.insert(100, 1);
    assert_eq!(h.entries(), vec![100]);
    assert_eq!(h.cursor(), 0);
    assert!(!h.can_back());
    assert!(!h.can_forward());
}

#[test]
fn scenario_back_enables_forward() {
    let mut h = track(&[1, 2, 3], 2);
    assert_eq!(h.cursor(), 2);
    assert!(h.back(true));
    assert_eq!(h.cursor(), 1);
    assert!(h.can_forward());
}

#[test]
fn scenario_engine_truncated_insert() {
    let mut h = track(&[1, 2, 3], 1);
    assert_eq!(h.entries(), vec![1, 2, 3]);
    assert_eq!(h.cursor(), 1);
    h.insert(4, 2);
    assert_eq!(h.entries(), vec![1, 4]);
    assert_eq!(h.cursor(), 1);
}

#[test]
fn insert_grown_stack_appends() {
    let mut h = track(&[1, 2, 3], 1);
    h.insert(9, 4);
    assert_eq!(h.entries(), vec![1, 2, 3, 9]);
    assert_eq!(h.cursor(), 3);
}

#[test]
fn insert_unknown_length_drops_forward_entries() {
    let mut h = track(&[1, 2, 3], 0);
    h.insert(5, 0);
    assert_eq!(h.entries(), vec![1, 5]);
    assert_eq!(h.cursor(), 1);
}

#[test]
fn insert_non_positive_id_is_ignored() {
    let mut h = track(&[1, 2], 1);
    h.insert(0, 3);
    h.insert(-4, 3);
    assert_eq!(h.entries(), vec![1, 2]);
    assert_eq!(h.cursor(), 1);
}

#[test]
fn insert_current_twice_is_idempotent() {
    let mut h = track(&[1, 2, 3], 1);
    h.insert(2, 0);
    h.insert(2, 0);
    assert_eq!(h.entries(), vec![1, 2, 3]);
    assert_eq!(h.cursor(), 1);
}

#[test]
fn back_then_forward_round_trip() {
    let mut h = track(&[1, 2, 3], 2);
    assert!(h.back(true));
    assert!(h.forward(true));
    assert_eq!(h.cursor(), 2);
    assert_eq!(h.entries(), vec![1, 2, 3]);
}

#[test]
fn failed_command_leaves_cursor() {
    let mut h = track(&[1, 2, 3], 2);
    assert!(!h.back(false));
    assert_eq!(h.cursor(), 2);
    assert!(!h.forward(true));
    assert_eq!(h.cursor(), 2);
}

#[test]
fn go_moves_only_within_track() {
    let mut h = track(&[1, 2, 3], 2);
    assert_eq!(h.go_delta(0), Some(-2));
    assert_eq!(h.go_delta(2), None);
    assert_eq!(h.go_delta(3), None);
    assert!(!h.go(3, true));
    assert!(!h.go(0, false));
    assert!(h.go(0, true));
    assert_eq!(h.cursor(), 0);
}

#[test]
fn replace_overwrites_current_entry() {
    let mut h = track(&[1, 2, 3], 1);
    h.replace(7, 3);
    assert_eq!(h.entries(), vec![1, 7, 3]);
    assert_eq!(h.cursor(), 1);
}

#[test]
fn replace_appends_on_grown_stack_or_empty() {
    let mut h = HistoryTrack::new();
    h.replace(5, 0);
    assert_eq!(h.entries(), vec![5]);
    assert_eq!(h.cursor(), 0);
    h.replace(6, 2);
    assert_eq!(h.entries(), vec![5, 6]);
    assert_eq!(h.cursor(), 1);
}

#[test]
fn replace_cuts_to_shorter_engine_stack() {
    let mut h = track(&[1, 2, 3], 2);
    h.replace(8, 2);
    assert_eq!(h.entries(), vec![1, 8]);
    assert_eq!(h.cursor(), 1);
}

#[test]
fn index_finds_first_occurrence() {
    let h = track(&[4, 5, 4], 2);
    assert_eq!(h.index(4), Some(0));
    assert_eq!(h.index(5), Some(1));
    assert_eq!(h.index(6), None);
}
