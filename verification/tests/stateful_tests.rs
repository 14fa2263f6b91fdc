use contrapunk::harmony::scale::Scale;
use contrapunk::harmony::stateful::{ContraryMotionState, CounterpointState, MelodicDirection};

const F3: u8 = 53;
const A3: u8 = 57;
const B3: u8 = 59;
const C4: u8 = 60;
const D4: u8 = 62;
const E4: u8 = 64;
const F4: u8 = 65;
const G4: u8 = 67;
const A4: u8 = 69;
const C5: u8 = 72;

#[test]
fn test_contrary_motion_first_note() {
    let mut scale = Scale::major(0);
    let mut state = ContraryMotionState::new();
    let result = state.process(&mut scale, E4);
    assert_eq!(result.len(), 2);
    assert_eq!(result[0], E4);
    assert_eq!(result[1], C4);
}

#[test]
fn test_contrary_motion_opposite_direction() {
    let mut scale = Scale::major(0);
    let mut state = ContraryMotionState::new();
    let _ = state.process(&mut scale, E4);
    let result = state.process(&mut scale, G4);
    assert_eq!(result[0], G4);
    assert_eq!(result[1], B3);
}

#[test]
fn test_contrary_motion_melody_repeats() {
    let mut scale = Scale::major(0);
    let mut state = ContraryMotionState::new();
    let result1 = state.process(&mut scale, C4);
    let harmony1 = result1[1];
    let result2 = state.process(&mut scale, C4);
    let harmony2 = result2[1];
    assert_ne!(harmony1, harmony2, "Harmony should move when melody repeats");
    let result3 = state.process(&mut scale, C4);
    let harmony3 = result3[1];
    assert_ne!(harmony2, harmony3, "Harmony should continue moving on repeated melody");
}

#[test]
fn test_counterpoint_avoids_parallel_fifths() {
    let scale = Scale::major(0);
    let mut state = CounterpointState::new();
    state.set_last_notes(Some(C4), Some(F3));
    let result = state.process(&scale, D4);
    assert_eq!(result[0], D4);
    if result.len() > 1 {
        let interval = (D4 as i8 - result[1] as i8).unsigned_abs() % 12;
        assert_ne!(interval, 7, "Should not produce parallel fifth");
    }
}

#[test]
fn test_counterpoint_first_note() {
    let scale = Scale::major(0);
    let mut state = CounterpointState::new();
    let result = state.process(&scale, C4);
    assert_eq!(result.len(), 2);
    assert_eq!(result[0], C4);
}

#[test]
fn test_counterpoint_melody_repeats_harmony_moves() {
    let scale = Scale::major(0);
    let mut state = CounterpointState::new();
    let result1 = state.process(&scale, C4);
    assert_eq!(result1.len(), 2);
    let result2 = state.process(&scale, C4);
    assert_eq!(result2.len(), 2);
    assert_ne!(result1[1], result2[1], "Harmony must move when melody repeats");
}

#[test]
fn test_counterpoint_prefers_stepwise_motion() {
    let scale = Scale::major(0);
    let mut state = CounterpointState::new();
    let h1 = state.process(&scale, C4)[1] as i32;
    let h2 = state.process(&scale, D4)[1] as i32;
    let step = (h2 - h1).abs();
    assert!(step <= 4, "Harmony should prefer stepwise motion, got step of {}", step);
}

#[test]
fn test_counterpoint_varies_intervals() {
    let scale = Scale::major(0);
    let mut state = CounterpointState::new();
    let mut harmonies = Vec::new();
    for _ in 0..4 {
        let result = state.process(&scale, C4);
        harmonies.push(result[1]);
    }
    harmonies.sort();
    harmonies.dedup();
    assert!(harmonies.len() >= 2, "Counterpoint should vary harmonies on repeated notes");
}

#[test]
fn test_interval_history_tracks_multiple() {
    let mut state = CounterpointState::new();
    state.push_interval(3);
    state.push_interval(6);
    state.push_interval(3);
    state.push_interval(4);
    assert_eq!(state.interval_history().len(), 4);
    assert_eq!(state.count_recent_interval(3), 2);
    assert_eq!(state.count_recent_interval(6), 1);
    state.push_interval(5);
    assert_eq!(state.interval_history().len(), 4);
    assert_eq!(state.count_recent_interval(3), 1);
}

#[test]
fn test_too_many_thirds_penalized() {
    let mut state = CounterpointState::new();
    state.push_interval(3);
    state.push_interval(3);
    state.push_interval(3);
    assert!(state.is_interval_overused(3));
    assert!(!state.is_interval_overused(6));
}

#[test]
fn test_contour_tracks_direction() {
    let mut state = CounterpointState::new();
    state.push_contour(MelodicDirection::Ascending);
    state.push_contour(MelodicDirection::Ascending);
    state.push_contour(MelodicDirection::Static);
    assert_eq!(state.melody_contour().len(), 3);
    assert_eq!(state.dominant_contour(), Some(MelodicDirection::Ascending));
}

#[test]
fn test_contour_descending_detection() {
    let mut state = CounterpointState::new();
    state.push_contour(MelodicDirection::Descending);
    state.push_contour(MelodicDirection::Descending);
    assert_eq!(state.dominant_contour(), Some(MelodicDirection::Descending));
}

#[test]
fn test_contour_mixed_returns_none() {
    let mut state = CounterpointState::new();
    state.push_contour(MelodicDirection::Ascending);
    state.push_contour(MelodicDirection::Descending);
    state.push_contour(MelodicDirection::Static);
    assert_eq!(state.dominant_contour(), None);
}

#[test]
fn test_contrary_motion_preferred_with_ascending_melody() {
    let scale = Scale::major(0);
    let mut state = CounterpointState::new();
    let _ = state.process(&scale, C4);
    let _ = state.process(&scale, D4);
    let _ = state.process(&scale, E4);
    let _ = state.process(&scale, F4);
    assert_eq!(state.dominant_contour(), Some(MelodicDirection::Ascending));
    let prev_h = state.last_harmony().unwrap();
    let result = state.process(&scale, G4);
    assert!(result.len() == 2, "Should produce harmony");
    let _ = (prev_h, result[1]);
}

#[test]
fn test_harmony_range_tracking() {
    let mut state = CounterpointState::new();
    state.update_harmony_range(C4);
    assert_eq!(state.harmony_range_bounds(), (Some(60), Some(60)));
    state.update_harmony_range(G4);
    assert_eq!(state.harmony_range_bounds(), (Some(60), Some(67)));
    state.update_harmony_range(A3);
    assert_eq!(state.harmony_range_bounds(), (Some(57), Some(67)));
    assert_eq!(state.harmony_range(), Some(10));
}

#[test]
fn test_narrow_range_detection() {
    let mut state = CounterpointState::new();
    assert!(!state.is_harmony_range_narrow());
    state.update_harmony_range(C4);
    state.update_harmony_range(E4);
    assert!(state.is_harmony_range_narrow());
    state.update_harmony_range(C5);
    assert!(!state.is_harmony_range_narrow());
}

#[test]
fn test_reset_clears_all_history() {
    let scale = Scale::major(0);
    let mut state = CounterpointState::new();
    let _ = state.process(&scale, C4);
    let _ = state.process(&scale, D4);
    let _ = state.process(&scale, E4);
    assert!(state.last_melody().is_some());
    assert!(state.last_harmony().is_some());
    assert!(!state.interval_history().is_empty());
    assert!(!state.melody_contour().is_empty());
    assert!(state.harmony_range_bounds().0.is_some());
    state.reset();
    assert!(state.last_melody().is_none());
    assert!(state.last_harmony().is_none());
    assert!(state.interval_history().is_empty());
    assert!(state.melody_contour().is_empty());
    assert!(state.harmony_range_bounds().0.is_none());
    assert!(state.harmony_range_bounds().1.is_none());
}

#[test]
fn test_varied_harmony_over_repeated_melody() {
    let scale = Scale::major(0);
    let mut state = CounterpointState::new();
    let mut harmonies = Vec::new();
    for _ in 0..6 {
        let result = state.process(&scale, C4);
        assert_eq!(result.len(), 2, "Should always produce harmony");
        harmonies.push(result[1]);
    }
    let mut unique = harmonies.clone();
    unique.sort();
    unique.dedup();
    assert!(unique.len() >= 3, "Expected at least 3 different harmonies over 6 repeats, got {:?}", unique);
}

#[test]
fn test_ascending_scale_gets_varied_intervals() {
    let scale = Scale::major(0);
    let mut state = CounterpointState::new();
    let notes = [C4, D4, E4, F4, G4, A4];
    let mut intervals = Vec::new();
    for note in &notes {
        let result = state.process(&scale, *note);
        if result.len() == 2 {
            let interval = (result[1] as i8 - *note as i8).abs() % 12;
            intervals.push(interval);
        }
    }
    let mut unique = intervals.clone();
    unique.sort();
    unique.dedup();
    assert!(unique.len() >= 2, "Expected varied intervals on ascending scale, got: {:?}", unique);
}

#[test]
fn test_direction_between_helper() {
    assert_eq!(CounterpointState::direction_between(C4, E4), MelodicDirection::Ascending);
    assert_eq!(CounterpointState::direction_between(E4, C4), MelodicDirection::Descending);
    assert_eq!(CounterpointState::direction_between(C4, C4), MelodicDirection::Static);
}

#[test]
fn test_interval_fresh_detection() {
    let mut state = CounterpointState::new();
    assert!(state.is_interval_fresh(3));
    assert!(state.is_interval_fresh(6));
    state.push_interval(3);
    state.push_interval(4);
    assert!(!state.is_interval_fresh(3));
    assert!(!state.is_interval_fresh(4));
    assert!(state.is_interval_fresh(6));
}

#[test]
fn contrary_directed_first_harmony_goes_the_chosen_way() {
    let mut scale = Scale::major(0);
    let mut up = ContraryMotionState::new();
    assert_eq!(up.process_directed(&mut scale, C4, true), vec![C4, E4]);
    let mut down = ContraryMotionState::new();
    assert_eq!(down.process_directed(&mut scale, E4, false), vec![E4, C4]);
}
