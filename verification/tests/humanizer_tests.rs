use contrapunk::humanize::engine::{HumanizeSettings, NoteHumanizer};

fn off() -> HumanizeSettings {
    HumanizeSettings {
        enabled: false,
        jitter_enabled: false,
        jitter_min_ms: 1,
        jitter_max_ms: 10,
        velocity_enabled: false,
        velocity_variation: 15,
        duration_enabled: false,
        duration_variation_ms: 20,
        swing_enabled: false,
    }
}

#[test]
fn disabled_humanizer_passes_notes_through() {
    let mut h = NoteHumanizer::new();
    let n = h.humanize_note_on(&off(), 64, 2, 90, 1, 1, 40);
    assert_eq!((n.note, n.channel, n.velocity, n.delay_ms, n.duration_delta_ms), (64, 2, 90, 0, 0));
    assert!(!n.is_note_off);
    let o = h.humanize_note_off(64, 2, 0, 1, 1);
    assert_eq!((o.delay_ms, o.duration_delta_ms), (0, 0));
    assert!(o.is_note_off);
}

#[test]
fn swing_only_delays_by_the_swing() {
    let mut s = off();
    s.enabled = true;
    s.swing_enabled = true;
    let mut h = NoteHumanizer::new();
    let n = h.humanize_note_on(&s, 60, 0, 100, 0, 1, 37);
    assert_eq!(n.delay_ms, 37);
    assert_eq!(n.velocity, 100);
    assert_eq!(h.humanize_note_off(60, 0, 0, 0, 1).delay_ms, 37);
}

#[test]
fn random_draws_stay_in_their_ranges() {
    let mut s = off();
    s.enabled = true;
    s.jitter_enabled = true;
    s.velocity_enabled = true;
    s.duration_enabled = true;
    s.jitter_min_ms = 3;
    s.jitter_max_ms = 9;
    s.velocity_variation = 10;
    s.duration_variation_ms = 20;
    let mut h = NoteHumanizer::new();
    for _ in 0..200 {
        let n = h.humanize_note_on(&s, 62, 0, 120, 0, 1, 0);
        assert!((3..=9).contains(&n.delay_ms));
        assert!((110..=127).contains(&n.velocity));
        assert!((0..=20).contains(&n.duration_delta_ms));
        let o = h.humanize_note_off(62, 0, 0, 0, 1);
        assert_eq!(o.delay_ms as i32, n.delay_ms as i32 + n.duration_delta_ms as i32);
    }
}

#[test]
fn note_off_without_note_on_is_immediate() {
    let mut h = NoteHumanizer::new();
    let o = h.humanize_note_off(70, 3, 64, 2, 2);
    assert_eq!((o.note, o.channel, o.velocity, o.delay_ms, o.port, o.voice_index), (70, 3, 64, 0, 2, 2));
}

#[test]
fn low_velocity_is_clamped_to_one() {
    let mut s = off();
    s.enabled = true;
    s.velocity_enabled = true;
    s.velocity_variation = 100;
    let mut h = NoteHumanizer::new();
    for _ in 0..100 {
        let n = h.humanize_note_on(&s, 62, 0, 5, 0, 1, 0);
        assert!(n.velocity >= 1 && n.velocity <= 105);
    }
}

#[test]
fn delay_saturates_at_the_16_bit_limit() {
    let mut s = off();
    s.enabled = true;
    s.jitter_enabled = true;
    s.jitter_min_ms = 65000;
    s.jitter_max_ms = 65000;
    s.swing_enabled = true;
    let mut h = NoteHumanizer::new();
    let n = h.humanize_note_on(&s, 60, 0, 100, 0, 1, 1000);
    assert_eq!(n.delay_ms, 65535);
}
