use contrapunk::humanize::beat_clock::{beat_crossed, subdivision_crossed};
use contrapunk::humanize::engine::{can_humanize, HumanizeSettings};
use contrapunk::humanize::beat_clock::SubdivisionCrossing;
use contrapunk::humanize::config::{AccentLevel, MetronomeSound, MetronomeSubdivision};
use contrapunk::humanize::groove::{all_templates, GrooveSettings, GrooveTemplate};
use contrapunk::humanize::metronome::{make_note_off, make_note_on, Metronome, VEL_EIGHTH_SUB, VEL_GHOST, VEL_SIXTEENTH_SUB};

fn enabled() -> Metronome {
    let mut met = Metronome::new();
    met.enabled = true;
    met
}

fn pattern() -> Vec<AccentLevel> {
    vec![AccentLevel::Accent, AccentLevel::Normal, AccentLevel::Normal, AccentLevel::Normal]
}

/// The click bytes at full volume (no velocity scaling).
fn click(
    met: &Metronome,
    beat: u8,
    sixteenth: u8,
    sound: MetronomeSound,
    sub: MetronomeSubdivision,
    accents: &[AccentLevel],
) -> Option<Vec<u8>> {
    met.click_plan(&SubdivisionCrossing { beat, sixteenth }, sound, sub, accents)
        .map(|(note, vel)| make_note_on(note, vel))
}

#[test]
fn legacy_generate_click_still_works() {
    let met = enabled();
    let click = met.generate_click(0);
    assert_eq!(click[0], 0x99);
    assert_eq!(click[1], 76);
    assert_eq!(click[2], 127);

    let click = met.generate_click(2);
    assert_eq!(click[1], 77);
    assert_eq!(click[2], 100);
}

#[test]
fn legacy_click_off() {
    let met = enabled();
    assert_eq!(met.generate_click_off(0), vec![0x89, 76, 0]);
    assert_eq!(met.generate_click_off(3), vec![0x89, 77, 0]);
    assert_eq!(met.generate_click_off_for_note(42), vec![0x89, 42, 0]);
}

#[test]
fn count_in_lifecycle() {
    let mut met = Metronome::new();
    met.enabled = true;
    let total = met.start_count_in(2, 4);
    assert_eq!(total, 8);
    assert!(met.is_counting_in());
    for i in 0..7 {
        assert!(met.tick_count_in(), "beat {} should still be counting in", i);
    }
    assert!(!met.tick_count_in());
    assert!(!met.is_counting_in());
}

#[test]
fn empty_count_in_is_inactive() {
    let mut met = Metronome::new();
    assert_eq!(met.start_count_in(0, 4), 0);
    assert!(!met.is_counting_in());
    assert!(!met.tick_count_in());
}

#[test]
fn accent_beat_generates_click() {
    let bytes = click(&enabled(), 0, 0, MetronomeSound::Woodblock, MetronomeSubdivision::Quarter, &pattern()).unwrap();
    assert_eq!(bytes[0], 0x99);
    assert_eq!(bytes[1], 76);
    assert_eq!(bytes[2], 127);
}

#[test]
fn normal_beat_generates_lower_velocity() {
    let bytes = click(&enabled(), 1, 0, MetronomeSound::Woodblock, MetronomeSubdivision::Quarter, &pattern()).unwrap();
    assert_eq!(bytes[1], 77);
    assert_eq!(bytes[2], 100);
}

#[test]
fn ghost_beat_generates_soft_click() {
    let mut accents = pattern();
    accents[2] = AccentLevel::GhostNote;
    let bytes = click(&enabled(), 2, 0, MetronomeSound::Woodblock, MetronomeSubdivision::Quarter, &accents).unwrap();
    assert_eq!(bytes[2], VEL_GHOST);
}

#[test]
fn muted_beat_generates_nothing() {
    let mut accents = pattern();
    accents[1] = AccentLevel::Mute;
    assert!(click(&enabled(), 1, 0, MetronomeSound::Woodblock, MetronomeSubdivision::Quarter, &accents).is_none());
}

#[test]
fn eighth_subdivision_generates_click() {
    let bytes = click(&enabled(), 0, 2, MetronomeSound::Woodblock, MetronomeSubdivision::Eighth, &pattern()).unwrap();
    assert_eq!(bytes[1], 42);
    assert_eq!(bytes[2], VEL_EIGHTH_SUB);
}

#[test]
fn sixteenth_subdivision_generates_click() {
    let bytes = click(&enabled(), 0, 1, MetronomeSound::Woodblock, MetronomeSubdivision::Sixteenth, &pattern()).unwrap();
    assert_eq!(bytes[1], 42);
    assert_eq!(bytes[2], VEL_SIXTEENTH_SUB);
}

#[test]
fn no_subdivision_skips_offbeat() {
    assert!(click(&enabled(), 0, 2, MetronomeSound::Woodblock, MetronomeSubdivision::Quarter, &pattern()).is_none());
}

#[test]
fn eighth_subdivision_skips_sixteenths() {
    assert!(click(&enabled(), 0, 3, MetronomeSound::Woodblock, MetronomeSubdivision::Eighth, &pattern()).is_none());
    assert!(click(&enabled(), 0, 4, MetronomeSound::Woodblock, MetronomeSubdivision::Sixteenth, &pattern()).is_none());
}

#[test]
fn beat_beyond_pattern_is_normal() {
    let bytes = click(&enabled(), 9, 0, MetronomeSound::Woodblock, MetronomeSubdivision::Quarter, &pattern()).unwrap();
    assert_eq!(bytes, vec![0x99, 77, 100]);
}

#[test]
fn sound_set_rimshot() {
    let bytes = click(&enabled(), 0, 0, MetronomeSound::Rimshot, MetronomeSubdivision::Quarter, &pattern()).unwrap();
    assert_eq!(bytes[1], 37);
}

#[test]
fn sound_set_cowbell() {
    let bytes = click(&enabled(), 0, 0, MetronomeSound::Cowbell, MetronomeSubdivision::Quarter, &pattern()).unwrap();
    assert_eq!(bytes[1], 56);
}

#[test]
fn disabled_metronome_generates_nothing() {
    let met = Metronome::new();
    assert!(click(&met, 0, 0, MetronomeSound::Woodblock, MetronomeSubdivision::Quarter, &pattern()).is_none());
}

#[test]
fn note_on_velocity_is_clamped() {
    assert_eq!(make_note_on(76, 0), vec![0x99, 76, 1]);
    assert_eq!(make_note_on(76, 200), vec![0x99, 76, 127]);
    assert_eq!(make_note_off(76), vec![0x89, 76, 0]);
}

#[test]
fn sound_sets_have_their_notes() {
    assert_eq!(MetronomeSound::Woodblock.midi_notes(), (76, 77, 42));
    assert_eq!(MetronomeSound::HiHat.midi_notes(), (42, 42, 42));
}

fn settings(t: GrooveTemplate) -> GrooveSettings {
    t.settings()
}

#[test]
fn straight_template() {
    let s = settings(GrooveTemplate::Straight);
    assert_eq!(s.swing_percent, 0);
    assert_eq!(s.jitter_min_ms, 0);
    assert_eq!(s.jitter_max_ms, 0);
    assert_eq!(s.velocity_variation, 0);
    assert_eq!(s.duration_variation_ms, 0);
}

#[test]
fn swing_light_template() {
    let s = settings(GrooveTemplate::SwingLight);
    assert_eq!(s.swing_percent, 20);
    assert_eq!(s.jitter_min_ms, 1);
    assert_eq!(s.jitter_max_ms, 5);
    assert_eq!(s.velocity_variation, 5);
}

#[test]
fn swing_heavy_template() {
    let s = settings(GrooveTemplate::SwingHeavy);
    assert_eq!(s.swing_percent, 45);
    assert_eq!(s.jitter_min_ms, 2);
    assert_eq!(s.jitter_max_ms, 8);
    assert_eq!(s.velocity_variation, 10);
}

#[test]
fn push_template() {
    let s = settings(GrooveTemplate::Push);
    assert_eq!(s.swing_percent, 0);
    assert_eq!(s.jitter_min_ms, 0);
    assert_eq!(s.jitter_max_ms, 3);
    assert_eq!(s.velocity_variation, 15);
}

#[test]
fn drag_template() {
    let s = settings(GrooveTemplate::Drag);
    assert_eq!(s.swing_percent, 15);
    assert_eq!(s.jitter_min_ms, 5);
    assert_eq!(s.jitter_max_ms, 15);
    assert_eq!(s.velocity_variation, 8);
    assert_eq!(s.duration_variation_ms, 30);
}

#[test]
fn shuffle_template() {
    let s = settings(GrooveTemplate::Shuffle);
    assert_eq!(s.swing_percent, 33);
    assert_eq!(s.jitter_min_ms, 1);
    assert_eq!(s.jitter_max_ms, 3);
    assert_eq!(s.velocity_variation, 0);
}

#[test]
fn hiphop_template() {
    let s = settings(GrooveTemplate::HipHop);
    assert_eq!(s.swing_percent, 30);
    assert_eq!(s.jitter_min_ms, 2);
    assert_eq!(s.jitter_max_ms, 6);
    assert_eq!(s.velocity_variation, 12);
}

#[test]
fn jazz_template() {
    let s = settings(GrooveTemplate::Jazz);
    assert_eq!(s.swing_percent, 40);
    assert_eq!(s.jitter_min_ms, 3);
    assert_eq!(s.jitter_max_ms, 12);
    assert_eq!(s.velocity_variation, 18);
    assert_eq!(s.duration_variation_ms, 25);
}

#[test]
fn all_templates_returns_all_variants() {
    let templates = all_templates();
    assert_eq!(templates.len(), 8);
    assert_eq!(templates[0], GrooveTemplate::Straight);
    assert_eq!(templates[7], GrooveTemplate::Jazz);
}

#[test]
fn template_names_are_nonempty() {
    for t in all_templates() {
        assert!(!t.name().is_empty(), "template {:?} has empty name", t);
    }
    assert_eq!(GrooveTemplate::HipHop.name(), "Hip Hop");
}

#[test]
fn every_template_has_ordered_jitter() {
    for t in all_templates() {
        let s = t.settings();
        assert!(s.jitter_min_ms <= s.jitter_max_ms);
        assert!(s.swing_percent <= 50);
    }
}

#[test]
fn humanize_preconditions() {
    let mut s = HumanizeSettings {
        enabled: true,
        jitter_enabled: true,
        jitter_min_ms: 5,
        jitter_max_ms: 2,
        velocity_enabled: false,
        velocity_variation: 0,
        duration_enabled: false,
        duration_variation_ms: 0,
        swing_enabled: true,
    };
    assert!(!can_humanize(&s, 0));
    s.jitter_min_ms = 1;
    assert!(can_humanize(&s, 100));
    s.jitter_max_ms = 65535;
    assert!(can_humanize(&s, 1));
    s.enabled = false;
    assert!(can_humanize(&s, 1));
}

#[test]
fn beat_and_subdivision_crossings() {
    assert_eq!(beat_crossed(3, 4, 4), Some(0));
    assert_eq!(beat_crossed(4, 5, 4), Some(1));
    assert_eq!(beat_crossed(4, 4, 4), None);
    assert_eq!(beat_crossed(0, -1, 4), Some(3));
    assert_eq!(beat_crossed(0, -4, 4), Some(0));
    assert_eq!(subdivision_crossed(5, 6, 4), Some(SubdivisionCrossing { beat: 1, sixteenth: 2 }));
    assert_eq!(subdivision_crossed(15, 16, 4), Some(SubdivisionCrossing { beat: 0, sixteenth: 0 }));
    assert_eq!(subdivision_crossed(0, -1, 4), Some(SubdivisionCrossing { beat: 3, sixteenth: 3 }));
    assert_eq!(subdivision_crossed(7, 7, 4), None);
    assert_eq!(subdivision_crossed(40, 41, 3), Some(SubdivisionCrossing { beat: 1, sixteenth: 1 }));
}

#[test]
fn metronome_set_enabled_keeps_count_in() {
    let mut m = Metronome::new();
    m.start_count_in(1, 4);
    m.set_enabled(true);
    assert!(m.enabled);
    assert!(m.is_counting_in());
    m.set_enabled(false);
    assert!(!m.enabled);
    assert!(m.is_counting_in());
}
