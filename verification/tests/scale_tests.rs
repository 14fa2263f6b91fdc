use contrapunk::harmony::config::ScaleMode;
use contrapunk::harmony::scale::Scale;

// MIDI note numbers used below.
const A3: u8 = 57;
const B3: u8 = 59;
const C4: u8 = 60;
const DB4: u8 = 61;
const D4: u8 = 62;
const EB4: u8 = 63;
const E4: u8 = 64;
const F4: u8 = 65;
const GB4: u8 = 66;
const G4: u8 = 67;
const AB4: u8 = 68;
const A4: u8 = 69;
const BB4: u8 = 70;
const B4: u8 = 71;
const C5: u8 = 72;

#[test]
fn test_c_major_scale_degrees() {
    let scale = Scale::major(0);
    assert_eq!(scale.degree_of(C4), Some(0));
    assert_eq!(scale.degree_of(D4), Some(1));
    assert_eq!(scale.degree_of(E4), Some(2));
    assert_eq!(scale.degree_of(DB4), None);
}

#[test]
fn test_diatonic_third_up() {
    let scale = Scale::major(0);
    assert_eq!(scale.transpose_diatonic(C4, 2), Some(E4));
    assert_eq!(scale.transpose_diatonic(E4, 2), Some(G4));
}

#[test]
fn test_diatonic_interval_down() {
    let scale = Scale::major(0);
    assert_eq!(scale.transpose_diatonic(E4, -2), Some(C4));
}

#[test]
fn test_g_major_scale() {
    let scale = Scale::major(7);
    assert_eq!(scale.degree_of(G4), Some(0));
    assert_eq!(scale.degree_of(GB4), Some(6));
    assert_eq!(scale.degree_of(F4), None);
}

#[test]
fn test_is_in_scale() {
    let scale = Scale::major(0);
    assert!(scale.is_in_scale(C4));
    assert!(scale.is_in_scale(D4));
    assert!(scale.is_in_scale(E4));
    assert!(!scale.is_in_scale(DB4));
    assert!(!scale.is_in_scale(EB4));
}

#[test]
fn test_transpose_chromatic() {
    let scale = Scale::major(0);
    assert_eq!(scale.transpose_chromatic(C4, 4), Some(E4));
    assert_eq!(scale.transpose_chromatic(C4, -3), Some(A3));
}

#[test]
fn test_harmonize_smart_in_key() {
    let mut scale = Scale::major(0);
    assert_eq!(scale.harmonize_smart(C4, 2, true), Some(E4));
}

#[test]
fn test_harmonize_smart_out_of_key() {
    let mut scale = Scale::major(0);
    let result = scale.harmonize_smart(DB4, 2, true);
    assert!(result.is_some());
    let harmony = result.unwrap();
    let interval = (harmony as i8 - DB4 as i8).abs();
    assert!([3, 4, 5, 7, 8, 9].contains(&interval), "Expected consonant interval, got {} semitones", interval);
}

#[test]
fn test_chromatic_harmony_prefers_scale_tones() {
    let mut scale = Scale::major(0);
    let result = scale.harmonize_smart(GB4, -2, false);
    assert!(result.is_some());
    let harmony = result.unwrap();
    let interval = (GB4 as i8 - harmony as i8).abs();
    assert!([3, 4, 5, 7, 8, 9].contains(&interval), "Expected consonant interval below, got {} semitones", interval);
}

#[test]
fn test_scale_new_with_each_mode() {
    for &mode in ScaleMode::all() {
        let scale = Scale::new(0, mode);
        assert_eq!(scale.degree_of(C4), Some(0), "Tonic should be degree 0 for {:?}", mode);
        let mut count = 0;
        for midi in 60u8..72 {
            if scale.degree_of(midi).is_some() {
                count += 1;
            }
        }
        let expected = mode.intervals().len();
        assert_eq!(count, expected, "Mode {:?} should have {} degrees in an octave", mode, expected);
    }
}

#[test]
fn test_c_dorian_has_eb_and_bb() {
    let scale = Scale::new(0, ScaleMode::Dorian);
    assert_eq!(scale.degree_of(C4), Some(0));
    assert_eq!(scale.degree_of(D4), Some(1));
    assert_eq!(scale.degree_of(EB4), Some(2));
    assert_eq!(scale.degree_of(F4), Some(3));
    assert_eq!(scale.degree_of(G4), Some(4));
    assert_eq!(scale.degree_of(A4), Some(5));
    assert_eq!(scale.degree_of(BB4), Some(6));
    assert_eq!(scale.degree_of(E4), None);
    assert_eq!(scale.degree_of(B4), None);
}

#[test]
fn test_modal_interchange_finds_borrowing_source() {
    let mut scale = Scale::new(0, ScaleMode::Ionian);
    scale.set_interchange_enabled(true);
    scale.set_borrowing_range(3);
    let result = scale.harmonize_with_interchange(EB4, true);
    assert!(result.is_some(), "Should find harmony via interchange for Eb");
    assert!(scale.last_borrowed_from().is_some(), "Should record borrowed mode");
    let borrowed = scale.last_borrowed_from().unwrap();
    assert!(
        borrowed == ScaleMode::Aeolian || borrowed == ScaleMode::Dorian,
        "Should borrow from Aeolian or Dorian, got {:?}",
        borrowed
    );
}

#[test]
fn test_harmonize_smart_with_interchange_enabled() {
    let mut scale = Scale::new(0, ScaleMode::Ionian);
    scale.set_interchange_enabled(true);
    assert_eq!(scale.harmonize_smart(C4, 2, true), Some(E4));
    let result = scale.harmonize_smart(EB4, 2, true);
    assert!(result.is_some());
    assert!(scale.last_borrowed_from().is_some());
}

#[test]
fn test_harmonize_smart_without_interchange_unchanged() {
    let mut scale = Scale::new(0, ScaleMode::Ionian);
    let result = scale.harmonize_smart(EB4, 2, true);
    assert!(result.is_some());
    assert!(scale.last_borrowed_from().is_none());
}

#[test]
fn test_scale_mode_getter() {
    let scale = Scale::new(0, ScaleMode::Lydian);
    assert_eq!(scale.mode(), ScaleMode::Lydian);
}

#[test]
fn test_major_is_ionian() {
    let major = Scale::major(0);
    let ionian = Scale::new(0, ScaleMode::Ionian);
    for midi in 0u8..=127 {
        assert_eq!(major.degree_of(midi), ionian.degree_of(midi));
    }
}

#[test]
fn test_borrowing_range_clamp() {
    let mut scale = Scale::new(0, ScaleMode::Ionian);
    scale.set_borrowing_range(0);
    assert_eq!(scale.borrowing_range(), 1);
    scale.set_borrowing_range(10);
    assert_eq!(scale.borrowing_range(), 5);
}

#[test]
fn test_scale_mode_all_returns_57() {
    assert_eq!(ScaleMode::all().len(), 57);
}

#[test]
fn test_barry_harris_major_6th_dim_has_8_degrees() {
    let scale = Scale::new(0, ScaleMode::BHMajor6thDim);
    assert_eq!(scale.scale_len(), 8);
    let mut count = 0;
    for midi in 60u8..72 {
        if scale.degree_of(midi).is_some() {
            count += 1;
        }
    }
    assert_eq!(count, 8);
    assert_eq!(scale.degree_of(C4), Some(0));
    assert_eq!(scale.degree_of(AB4), Some(5));
    assert_eq!(scale.degree_of(A4), Some(6));
    assert_eq!(scale.degree_of(B4), Some(7));
}

#[test]
fn test_barry_harris_transpose_diatonic() {
    let scale = Scale::new(0, ScaleMode::BHMajor6thDim);
    assert_eq!(scale.transpose_diatonic(B4, 1), Some(C5));
    assert_eq!(scale.transpose_diatonic(C4, -1), Some(B3));
}

#[test]
fn test_phrygian_dominant_intervals() {
    let scale = Scale::new(0, ScaleMode::PhrygianDominant);
    assert_eq!(scale.degree_of(C4), Some(0));
    assert_eq!(scale.degree_of(DB4), Some(1));
    assert_eq!(scale.degree_of(E4), Some(2));
    assert_eq!(scale.degree_of(EB4), None);
    assert_eq!(scale.degree_of(G4), Some(4));
    assert_eq!(scale.degree_of(AB4), Some(5));
    assert_eq!(scale.degree_of(BB4), Some(6));
}

#[test]
fn test_existing_modes_unchanged() {
    let scale = Scale::new(0, ScaleMode::Ionian);
    assert_eq!(scale.degree_of(C4), Some(0));
    assert_eq!(scale.degree_of(D4), Some(1));
    assert_eq!(scale.degree_of(E4), Some(2));
    assert_eq!(scale.degree_of(F4), Some(3));
    assert_eq!(scale.degree_of(G4), Some(4));
    assert_eq!(scale.degree_of(A4), Some(5));
    assert_eq!(scale.degree_of(B4), Some(6));
}

#[test]
fn test_degree_to_midi_near_c_major() {
    let scale = Scale::major(0);
    assert_eq!(scale.degree_to_midi_near(0, 60), Some(60));
    assert_eq!(scale.degree_to_midi_near(2, 60), Some(64));
    assert_eq!(scale.degree_to_midi_near(4, 60), Some(55));
}

#[test]
fn test_degree_to_midi_near_bh_scale() {
    let scale = Scale::new(0, ScaleMode::BHMajor6thDim);
    assert_eq!(scale.degree_to_midi_near(6, 60), Some(57));
    assert_eq!(scale.degree_to_midi_near(7, 60), Some(59));
}

#[test]
fn snap_to_scale_moves_out_of_key_notes() {
    let scale = Scale::major(0);
    assert_eq!(scale.snap_to_scale(C4), C4);
    let snapped = scale.snap_to_scale(DB4);
    assert!(scale.is_in_scale(snapped));
    assert!((snapped as i16 - DB4 as i16).abs() == 1);
}

#[test]
fn transpose_out_of_range_gives_none() {
    let scale = Scale::major(0);
    assert_eq!(scale.transpose_diatonic(127, 7), None);
    assert_eq!(scale.transpose_chromatic(2, -5), None);
}

#[test]
fn in_key_note_clears_borrowed_mode() {
    let mut scale = Scale::new(0, ScaleMode::Ionian);
    scale.set_interchange_enabled(true);
    assert!(scale.harmonize_smart(EB4, 2, true).is_some());
    assert_eq!(scale.last_borrowed_from(), Some(ScaleMode::Aeolian));
    scale.harmonize_smart(C4, 2, true);
    assert_eq!(scale.last_borrowed_from(), None);
}
