use contrapunk::harmony::suggestion::{midi_to_positions, SuggestionSnapshot};

#[test]
fn test_midi_to_positions() {
    let positions = midi_to_positions(60);
    assert!(positions.len() >= 4);
    assert!(positions.contains(&(4, 1)));
    assert!(positions.contains(&(3, 5)));
}

#[test]
fn middle_c_positions_in_string_order() {
    assert_eq!(midi_to_positions(60), vec![(0, 20), (1, 15), (2, 10), (3, 5), (4, 1)]);
}

#[test]
fn positions_at_the_fretboard_edges() {
    assert_eq!(midi_to_positions(40), vec![(0, 0)]);
    assert_eq!(midi_to_positions(39), vec![]);
    assert_eq!(midi_to_positions(88), vec![(5, 24)]);
    assert_eq!(midi_to_positions(89), vec![]);
}

fn make_snapshot_c_major() -> SuggestionSnapshot {
    let scale_mask = (1 << 0) | (1 << 2) | (1 << 4) | (1 << 5) | (1 << 7) | (1 << 9) | (1 << 11);
    let chord_mask = (1 << 0) | (1 << 4) | (1 << 7);
    SuggestionSnapshot {
        recent_notes: [60, 62, 64, 65, 67, 69, 71, 72],
        recent_count: 8,
        current_chord_root: 0,
        current_chord_quality: 0,
        chord_pc_mask: chord_mask,
        next_chord_root: 255,
        next_chord_pc_mask: 0,
        scale_mask,
        key_root: 0,
        last_note_on_time_ms: 0,
    }
}

#[test]
fn snapshot_is_copy_and_send() {
    fn assert_send<T: Copy + Send>(_: T) {}
    let snap = SuggestionSnapshot::default();
    let _copy = snap;
    let _move = snap;
    assert_send(snap);
}

#[test]
fn snapshot_last_note() {
    let snap = make_snapshot_c_major();
    assert_eq!(snap.last_note(), Some(72));
    assert_eq!(snap.prev_note(), Some(71));
}

#[test]
fn empty_snapshot_has_no_notes() {
    let snap = SuggestionSnapshot::default();
    assert_eq!(snap.last_note(), None);
    assert_eq!(snap.prev_note(), None);
    assert_eq!(snap.count_in_recent(0), 0);
    assert!(!snap.is_in_scale(0));
}

#[test]
fn snapshot_scale_and_chord_membership() {
    let snap = make_snapshot_c_major();
    assert!(snap.is_in_scale(62));
    assert!(!snap.is_in_scale(61));
    assert!(snap.is_chord_tone(67));
    assert!(snap.is_chord_tone(76));
    assert!(!snap.is_chord_tone(65));
}

#[test]
fn snapshot_counts_repeats() {
    let mut snap = make_snapshot_c_major();
    snap.recent_notes[3] = 60;
    assert_eq!(snap.count_in_recent(60), 2);
    snap.recent_count = 2;
    assert_eq!(snap.count_in_recent(60), 1);
    assert_eq!(snap.count_in_recent(72), 0);
}

fn two_notes(a: u8, b: u8) -> SuggestionSnapshot {
    let mut snap = SuggestionSnapshot::default();
    snap.recent_notes[0] = a;
    snap.recent_notes[1] = b;
    snap.recent_count = 2;
    snap
}

#[test]
fn test_f_scale_tone() {
    let snap = make_snapshot_c_major();
    assert_eq!(snap.scale_tone_grade(60), 1000);
    assert_eq!(snap.scale_tone_grade(62), 700);
    assert_eq!(snap.scale_tone_grade(61), 300);
}

#[test]
fn test_f_chord_tone() {
    let snap = make_snapshot_c_major();
    assert_eq!(snap.chord_tone_grade(60), Some(1000));
    assert_eq!(snap.chord_tone_grade(64), Some(800));
    assert_eq!(snap.chord_tone_grade(62), Some(200));
    assert_eq!(snap.chord_tone_grade(61), Some(0));
}

#[test]
fn test_f_contour_continuation() {
    let snap = two_notes(60, 62);
    assert_eq!(snap.contour_grade(64), Some(1000));
    assert_eq!(snap.contour_grade(60), Some(750));
}

#[test]
fn contour_cases() {
    assert_eq!(two_notes(60, 60).contour_grade(61), Some(750));
    assert_eq!(two_notes(60, 60).contour_grade(65), Some(400));
    assert_eq!(two_notes(60, 62).contour_grade(67), Some(500));
    assert_eq!(two_notes(60, 62).contour_grade(72), Some(0));
    assert_eq!(two_notes(60, 62).contour_grade(62), Some(400));
    assert_eq!(two_notes(60, 62).contour_grade(55), Some(250));
    assert_eq!(SuggestionSnapshot::default().contour_grade(60), None);
}

#[test]
fn test_f_leap_recovery() {
    let snap = two_notes(60, 67);
    assert_eq!(snap.leap_recovery_grade(65), Some(1000));
    assert_eq!(snap.leap_recovery_grade(72), Some(100));
    assert_eq!(snap.leap_recovery_grade(63), Some(750));
    assert_eq!(two_notes(60, 61).leap_recovery_grade(50), Some(500));
    assert_eq!(two_notes(60, 63).leap_recovery_grade(50), Some(500));
}

#[test]
fn test_f_repetition() {
    let mut snap = SuggestionSnapshot::default();
    snap.recent_notes = [60, 60, 60, 60, 62, 64, 65, 67];
    snap.recent_count = 8;
    assert_eq!(snap.count_in_recent(60), 4);
    assert_eq!(snap.count_in_recent(69), 0);
}

#[test]
fn test_f_leading_tone_resolution() {
    let mut snap = make_snapshot_c_major();
    snap.recent_notes[7] = 71;
    snap.recent_count = 8;
    assert_eq!(snap.leading_tone_grade(60), Some(1000));
    assert_eq!(snap.leading_tone_grade(62), Some(0));
    snap.recent_notes[7] = 65;
    assert_eq!(snap.leading_tone_grade(64), Some(860));
    snap.recent_notes[7] = 67;
    assert_eq!(snap.leading_tone_grade(60), None);
}

#[test]
fn test_f_dissonance() {
    let snap = make_snapshot_c_major();
    assert_eq!(snap.dissonance_grade(60), Some(1000));
    assert_eq!(snap.dissonance_grade(67), Some(1000));
    assert_eq!(snap.dissonance_grade(64), Some(800));
    assert_eq!(snap.dissonance_grade(66), Some(125));
    assert_eq!(snap.dissonance_grade(62), Some(500));
}

#[test]
fn test_f_narmour() {
    let snap = two_notes(60, 67);
    assert_eq!(snap.narmour_direction_grade(65), Some(1000));
    assert_eq!(snap.narmour_direction_grade(74), Some(250));
    assert_eq!(snap.narmour_direction_grade(67), Some(500));
    assert_eq!(two_notes(60, 62).narmour_direction_grade(64), Some(750));
    assert_eq!(two_notes(60, 66).narmour_direction_grade(70), Some(500));
}

#[test]
fn next_chord_preparation() {
    let mut snap = make_snapshot_c_major();
    assert_eq!(snap.next_chord_prep_grade(60), None);
    snap.next_chord_root = 7;
    snap.next_chord_pc_mask = (1 << 7) | (1 << 11) | (1 << 2);
    assert_eq!(snap.next_chord_prep_grade(67), Some(1000));
    assert_eq!(snap.next_chord_prep_grade(66), Some(830));
    assert_eq!(snap.next_chord_prep_grade(62), Some(500));
    assert_eq!(snap.next_chord_prep_grade(65), Some(0));
}
