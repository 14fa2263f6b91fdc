use contrapunk::harmony::config::{HarmonyMode, Key, OctaveMode, ScaleMode};
use contrapunk::harmony::engine::HarmonyEngine;
use contrapunk::harmony::voice_leading::styles::VoiceLeadingStyle;

const D3: u8 = 50;
const F3: u8 = 53;
const A3: u8 = 57;
const C4: u8 = 60;
const D4: u8 = 62;
const EB4: u8 = 63;
const E4: u8 = 64;
const F4: u8 = 65;
const G4: u8 = 67;
const BB4: u8 = 70;
const B4: u8 = 71;
const C5: u8 = 72;
const E5: u8 = 76;
const G6: u8 = 91;

#[test]
fn test_engine_creation() {
    let engine = HarmonyEngine::new(Key::C, HarmonyMode::DiatonicThirds);
    assert_eq!(engine.key(), Key::C);
    assert_eq!(engine.mode(), HarmonyMode::DiatonicThirds);
}

#[test]
fn test_engine_pass_through() {
    let mut engine = HarmonyEngine::new(Key::C, HarmonyMode::PassThrough);
    assert_eq!(engine.harmonize(C4), vec![C4]);
}

#[test]
fn test_engine_diatonic_thirds() {
    let mut engine = HarmonyEngine::new(Key::C, HarmonyMode::DiatonicThirds);
    assert_eq!(engine.harmonize(C4), vec![C4, E4]);
}

#[test]
fn test_key_change() {
    let mut engine = HarmonyEngine::new(Key::C, HarmonyMode::DiatonicThirds);
    let result = engine.harmonize(C4);
    assert_eq!(result[1], E4);
    engine.set_key(Key::G);
    let result = engine.harmonize(G4);
    assert_eq!(result[1], B4);
}

#[test]
fn test_mode_change() {
    let mut engine = HarmonyEngine::new(Key::C, HarmonyMode::PassThrough);
    assert_eq!(engine.harmonize(C4).len(), 1);
    engine.set_mode(HarmonyMode::DiatonicThirds);
    assert_eq!(engine.harmonize(C4).len(), 2);
}

#[test]
fn test_contrary_motion_mode() {
    let mut engine = HarmonyEngine::new(Key::C, HarmonyMode::ContraryMotion);
    let result = engine.harmonize(E4);
    assert_eq!(result.len(), 2);
    assert_eq!(result[0], E4);
    assert_eq!(result[1], G4);
}

#[test]
fn test_counterpoint_mode() {
    let mut engine = HarmonyEngine::new(Key::C, HarmonyMode::StrictCounterpoint);
    let result = engine.harmonize(C4);
    assert_eq!(result.len(), 2);
    assert_eq!(result[0], C4);
    assert_eq!(result[1], E4);
}

#[test]
fn test_stateful_reset_on_key_change() {
    let mut engine = HarmonyEngine::new(Key::C, HarmonyMode::ContraryMotion);
    engine.harmonize(C4);
    engine.harmonize(E4);
    engine.set_key(Key::G);
    let result = engine.harmonize(G4);
    assert_eq!(result.len(), 2);
    assert_eq!(result[1], B4);
}

#[test]
fn test_note_on_off_tracking() {
    let mut engine = HarmonyEngine::new(Key::C, HarmonyMode::DiatonicThirds);
    assert_eq!(engine.harmonize_note_on(C4), vec![C4, E4]);
    assert_eq!(engine.harmonize_note_off(C4), vec![C4, E4]);
    assert_eq!(engine.harmonize_note_off(C4), vec![C4]);
}

#[test]
fn test_random_mode_tracking() {
    let mut engine = HarmonyEngine::new(Key::C, HarmonyMode::RandomBelow);
    let on_result = engine.harmonize_note_on(C5);
    assert_eq!(on_result.len(), 2);
    let harmony = on_result[1];
    let off_result = engine.harmonize_note_off(C5);
    assert_eq!(off_result.len(), 2);
    assert_eq!(off_result[1], harmony);
}

#[test]
fn test_pass_through_no_tracking() {
    let mut engine = HarmonyEngine::new(Key::C, HarmonyMode::PassThrough);
    assert_eq!(engine.harmonize_note_on(C4), vec![C4]);
    assert_eq!(engine.harmonize_note_off(C4), vec![C4]);
}

#[test]
fn test_multiple_active_notes() {
    let mut engine = HarmonyEngine::new(Key::C, HarmonyMode::DiatonicThirds);
    let c4_on = engine.harmonize_note_on(C4);
    let e4_on = engine.harmonize_note_on(E4);
    assert_eq!(c4_on, vec![C4, E4]);
    assert_eq!(e4_on, vec![E4, G4]);
    assert_eq!(engine.harmonize_note_off(E4), vec![E4, G4]);
    assert_eq!(engine.harmonize_note_off(C4), vec![C4, E4]);
}

#[test]
fn test_key_change_clears_tracking() {
    let mut engine = HarmonyEngine::new(Key::C, HarmonyMode::DiatonicThirds);
    engine.harmonize_note_on(C4);
    engine.set_key(Key::G);
    assert_eq!(engine.harmonize_note_off(C4), vec![C4]);
}

#[test]
fn test_mode_change_clears_tracking() {
    let mut engine = HarmonyEngine::new(Key::C, HarmonyMode::DiatonicThirds);
    engine.harmonize_note_on(C4);
    engine.set_mode(HarmonyMode::DiatonicFourths);
    assert_eq!(engine.harmonize_note_off(C4), vec![C4]);
}

#[test]
fn test_chained_harmonies_with_thirds() {
    let mut engine = HarmonyEngine::with_voices(Key::C, HarmonyMode::DiatonicThirds, 4);
    let result = engine.harmonize(C4);
    assert_eq!(result, vec![C4, E4, G4, B4]);
}

#[test]
fn test_chained_harmonies_tracks_note_off() {
    let mut engine = HarmonyEngine::with_voices(Key::C, HarmonyMode::DiatonicThirds, 3);
    let on_result = engine.harmonize_note_on(C4);
    assert_eq!(on_result.len(), 3);
    let off_result = engine.harmonize_note_off(C4);
    assert_eq!(off_result.len(), 3);
    assert_eq!(on_result, off_result);
}

#[test]
fn test_single_voice_returns_melody_only() {
    let mut engine = HarmonyEngine::with_voices(Key::C, HarmonyMode::DiatonicThirds, 1);
    assert_eq!(engine.harmonize(C4), vec![C4]);
}

#[test]
fn test_set_voice_count_changes_output() {
    let mut engine = HarmonyEngine::new(Key::C, HarmonyMode::DiatonicThirds);
    assert_eq!(engine.harmonize(C4).len(), 2);
    engine.set_voice_count(4);
    assert_eq!(engine.harmonize(C4).len(), 4);
    engine.set_voice_count(1);
    assert_eq!(engine.harmonize(C4).len(), 1);
}

#[test]
fn test_chained_counterpoint_has_independent_state() {
    let mut engine = HarmonyEngine::with_voices(Key::C, HarmonyMode::StrictCounterpoint, 3);
    let result1 = engine.harmonize(C4);
    assert_eq!(result1.len(), 3);
    let result2 = engine.harmonize(D4);
    assert_eq!(result2.len(), 3);
    assert_ne!(result1[1], result1[2], "Chained harmonies should differ");
}

#[test]
fn test_pass_through_ignores_voice_count() {
    let mut engine = HarmonyEngine::with_voices(Key::C, HarmonyMode::PassThrough, 4);
    assert_eq!(engine.harmonize(C4), vec![C4]);
}

#[test]
fn test_voice_position_default_is_bass() {
    let engine = HarmonyEngine::with_voices(Key::C, HarmonyMode::DiatonicThirds, 4);
    assert_eq!(engine.voice_position(), 3);
}

#[test]
fn test_voice_position_top_generates_below() {
    let mut engine = HarmonyEngine::with_voices(Key::C, HarmonyMode::DiatonicThirds, 4);
    engine.set_voice_position(0);
    assert_eq!(engine.harmonize(C4), vec![C4, A3, F3, D3]);
}

#[test]
fn test_voice_position_middle_generates_both_directions() {
    let mut engine = HarmonyEngine::with_voices(Key::C, HarmonyMode::DiatonicThirds, 3);
    engine.set_voice_position(1);
    assert_eq!(engine.harmonize(C4), vec![C4, E4, A3]);
}

#[test]
fn test_voice_position_clamped_on_set() {
    let mut engine = HarmonyEngine::with_voices(Key::C, HarmonyMode::DiatonicThirds, 3);
    engine.set_voice_position(10);
    assert_eq!(engine.voice_position(), 2);
}

#[test]
fn test_voice_position_clamped_on_voice_count_change() {
    let mut engine = HarmonyEngine::with_voices(Key::C, HarmonyMode::DiatonicThirds, 4);
    engine.set_voice_position(3);
    engine.set_voice_count(2);
    assert_eq!(engine.voice_position(), 1);
}

#[test]
fn test_octave_mode_none_no_change() {
    let mut engine = HarmonyEngine::with_voices(Key::C, HarmonyMode::DiatonicThirds, 3);
    engine.set_octave_mode(OctaveMode::NoShift);
    assert_eq!(engine.harmonize(C4), vec![C4, E4, G4]);
}

#[test]
fn test_octave_mode_spread() {
    let mut engine = HarmonyEngine::with_voices(Key::C, HarmonyMode::DiatonicThirds, 3);
    engine.set_octave_mode(OctaveMode::Spread);
    assert_eq!(engine.harmonize(C4), vec![C4, E5, G6]);
}

#[test]
fn test_octave_mode_bass_treble_split() {
    let mut engine = HarmonyEngine::with_voices(Key::C, HarmonyMode::StrictCounterpoint, 2);
    engine.set_octave_mode(OctaveMode::BassTrebleSplit);
    let result = engine.harmonize(C4);
    assert_eq!(result.len(), 2);
    assert_eq!(result[0], C4);
    let harmony_midi = result[1];
    assert!(
        harmony_midi < C4 - 11 || harmony_midi > C4 + 11,
        "Harmony {} should be shifted at least one octave from melody {}",
        harmony_midi,
        C4
    );
}

#[test]
fn test_mirror_mode_anchor_aware() {
    let mut engine = HarmonyEngine::with_voices(Key::C, HarmonyMode::DiatonicThirds, 3);
    engine.set_octave_mode(OctaveMode::Mirror);
    let result = engine.harmonize(C4);
    assert_eq!(result.len(), 5, "Mirror should skip copies that cross anchor: {:?}", result);
    assert_eq!(result[0], C4);
    assert_eq!(result[1], E4);
    assert_eq!(result[2], G4);
}

#[test]
fn test_mirror_port_map_assignments() {
    let mut engine = HarmonyEngine::with_voices(Key::C, HarmonyMode::DiatonicThirds, 3);
    engine.set_octave_mode(OctaveMode::Mirror);
    let _result = engine.harmonize(C4);
    let port_map = engine.last_port_map();
    assert_eq!(port_map.len(), 5);
    assert_eq!(port_map[0], 2);
    assert_eq!(port_map[1], 1);
    assert_eq!(port_map[2], 0);
    assert_eq!(port_map[3], 1);
    assert_eq!(port_map[4], 0);
}

#[test]
fn test_mirror_out_of_range_skipped() {
    let mut engine = HarmonyEngine::with_voices(Key::C, HarmonyMode::DiatonicThirds, 2);
    engine.set_octave_mode(OctaveMode::Mirror);
    let result = engine.harmonize(C4);
    assert!(result.len() >= 3);
}

#[test]
fn test_mirror_note_off_releases_all_duplicates() {
    let mut engine = HarmonyEngine::with_voices(Key::C, HarmonyMode::DiatonicThirds, 3);
    engine.set_octave_mode(OctaveMode::Mirror);
    let on_result = engine.harmonize_note_on(C4);
    assert_eq!(on_result.len(), 5);
    let off_result = engine.harmonize_note_off(C4);
    assert_eq!(off_result.len(), 5, "Note-Off should release all notes from Note-On");
    assert_eq!(on_result[1..], off_result[1..]);
}

#[test]
fn test_mirror_port_map_restored_on_note_off() {
    let mut engine = HarmonyEngine::with_voices(Key::C, HarmonyMode::DiatonicThirds, 3);
    engine.set_octave_mode(OctaveMode::Mirror);
    engine.harmonize_note_on(C4);
    let on_port_map: Vec<usize> = engine.last_port_map().to_vec();
    engine.harmonize_note_off(C4);
    let off_port_map: Vec<usize> = engine.last_port_map().to_vec();
    assert_eq!(on_port_map, off_port_map, "Port map should be restored on Note-Off");
}

#[test]
fn test_non_mirror_port_map_is_identity() {
    let mut engine = HarmonyEngine::with_voices(Key::C, HarmonyMode::DiatonicThirds, 3);
    engine.set_octave_mode(OctaveMode::Spread);
    let result = engine.harmonize(C4);
    let port_map = engine.last_port_map();
    assert_eq!(port_map.len(), result.len());
    assert_eq!(port_map, &[2, 1, 0]);
}

#[test]
fn test_octave_mode_clears_note_tracking() {
    let mut engine = HarmonyEngine::with_voices(Key::C, HarmonyMode::DiatonicThirds, 2);
    engine.harmonize_note_on(C4);
    engine.set_octave_mode(OctaveMode::Spread);
    assert_eq!(engine.harmonize_note_off(C4), vec![C4]);
}

#[test]
fn test_vl_disabled_by_default() {
    let engine = HarmonyEngine::with_voices(Key::C, HarmonyMode::DiatonicThirds, 3);
    assert!(!engine.voice_leading_enabled());
}

#[test]
fn test_vl_disabled_unchanged_behavior() {
    let mut engine = HarmonyEngine::with_voices(Key::C, HarmonyMode::DiatonicThirds, 4);
    assert_eq!(engine.harmonize(C4), vec![C4, E4, G4, B4]);
}

#[test]
fn test_vl_enabled_produces_output() {
    let mut engine = HarmonyEngine::with_voices(Key::C, HarmonyMode::DiatonicThirds, 3);
    engine.set_voice_leading_enabled(true);
    let result = engine.harmonize(C4);
    assert_eq!(result.len(), 3);
    assert_eq!(result[0], C4);
}

#[test]
fn test_vl_melody_never_modified() {
    let mut engine = HarmonyEngine::with_voices(Key::C, HarmonyMode::DiatonicThirds, 4);
    engine.set_voice_leading_enabled(true);
    for note in [C4, D4, E4, F4, G4] {
        let result = engine.harmonize(note);
        assert_eq!(result[0], note, "Melody must never be modified by VL");
    }
}

#[test]
fn test_vl_resets_on_key_change() {
    let mut engine = HarmonyEngine::with_voices(Key::C, HarmonyMode::DiatonicThirds, 3);
    engine.set_voice_leading_enabled(true);
    engine.harmonize(C4);
    engine.set_key(Key::G);
    let result = engine.harmonize(G4);
    assert_eq!(result[0], G4);
    assert!(result.len() == 3);
}

#[test]
fn test_vl_resets_on_mode_change() {
    let mut engine = HarmonyEngine::with_voices(Key::C, HarmonyMode::DiatonicThirds, 3);
    engine.set_voice_leading_enabled(true);
    engine.harmonize(C4);
    engine.set_mode(HarmonyMode::DiatonicFourths);
    let result = engine.harmonize(C4);
    assert_eq!(result[0], C4);
}

#[test]
fn test_vl_resets_on_style_change() {
    let mut engine = HarmonyEngine::with_voices(Key::C, HarmonyMode::DiatonicThirds, 3);
    engine.set_voice_leading_enabled(true);
    engine.harmonize(C4);
    engine.set_voice_leading_style(VoiceLeadingStyle::Palestrina);
    let result = engine.harmonize(C4);
    assert_eq!(result[0], C4);
}

#[test]
fn test_vl_style_getter_setter() {
    let mut engine = HarmonyEngine::new(Key::C, HarmonyMode::DiatonicThirds);
    assert_eq!(engine.voice_leading_style(), VoiceLeadingStyle::Free);
    engine.set_voice_leading_style(VoiceLeadingStyle::BachChorale);
    assert_eq!(engine.voice_leading_style(), VoiceLeadingStyle::BachChorale);
}

#[test]
fn test_vl_before_octave_mode() {
    let mut engine = HarmonyEngine::with_voices(Key::C, HarmonyMode::DiatonicThirds, 3);
    engine.set_voice_leading_enabled(true);
    engine.set_octave_mode(OctaveMode::Spread);
    let result = engine.harmonize(C4);
    assert_eq!(result[0], C4);
    assert!(result.len() == 3);
}

#[test]
fn test_scale_mode_default_is_ionian() {
    let engine = HarmonyEngine::default();
    assert_eq!(engine.scale_mode(), ScaleMode::Ionian);
}

#[test]
fn test_set_scale_mode_changes_harmony() {
    let mut engine = HarmonyEngine::with_voices(Key::C, HarmonyMode::DiatonicThirds, 2);
    assert_eq!(engine.harmonize(C4)[1], E4);
    engine.set_scale_mode(ScaleMode::Dorian);
    assert_eq!(engine.harmonize(C4)[1], EB4);
}

#[test]
fn test_interchange_enabled_propagates() {
    let mut engine = HarmonyEngine::default();
    assert!(!engine.interchange_enabled());
    engine.set_interchange_enabled(true);
    assert!(engine.interchange_enabled());
}

#[test]
fn test_set_key_preserves_scale_mode() {
    let mut engine = HarmonyEngine::with_voices(Key::C, HarmonyMode::DiatonicThirds, 2);
    engine.set_scale_mode(ScaleMode::Dorian);
    engine.set_key(Key::G);
    assert_eq!(engine.scale_mode(), ScaleMode::Dorian);
    assert_eq!(engine.harmonize(G4)[1], BB4);
}

#[test]
fn test_borrowing_range_propagates() {
    let mut engine = HarmonyEngine::default();
    assert_eq!(engine.borrowing_range(), 3);
    engine.set_borrowing_range(5);
    assert_eq!(engine.borrowing_range(), 5);
    engine.set_borrowing_range(0);
    assert_eq!(engine.borrowing_range(), 1);
}

#[test]
fn test_interchange_produces_borrowed_harmonies() {
    let mut engine = HarmonyEngine::with_voices(Key::C, HarmonyMode::DiatonicThirds, 2);
    engine.set_interchange_enabled(true);
    let result = engine.harmonize_note_on(EB4);
    assert!(result.len() >= 2);
    assert!(engine.last_borrowed_from().is_some());
}

#[test]
fn test_vl_works_with_all_modes() {
    for &mode in HarmonyMode::all() {
        let mut engine = HarmonyEngine::with_voices(Key::C, mode, 3);
        engine.set_voice_leading_enabled(true);
        let result = engine.harmonize(C4);
        assert_eq!(result[0], C4, "Melody unchanged for mode {:?}", mode);
    }
}

#[test]
fn note_off_after_note_on_releases_the_same_notes_in_every_mode() {
    for &mode in HarmonyMode::all() {
        for voices in 1..=4 {
            let mut engine = HarmonyEngine::with_voices(Key::D, mode, voices);
            for note in [50u8, 60, 67, 72] {
                let on = engine.harmonize_note_on(note);
                let off = engine.harmonize_note_off(note);
                assert_eq!(on, off, "mode {:?}, {} voices, note {}", mode, voices, note);
            }
        }
    }
}

#[test]
fn bass_treble_split_moves_harmony_below_down() {
    let mut engine = HarmonyEngine::with_voices(Key::C, HarmonyMode::DiatonicThirds, 2);
    engine.set_voice_position(0);
    engine.set_octave_mode(OctaveMode::BassTrebleSplit);
    // A third below C4 is A3, moved down an octave.
    assert_eq!(engine.harmonize(C4), vec![C4, A3 - 12]);
}
