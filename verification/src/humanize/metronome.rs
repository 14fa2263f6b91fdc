//! Metronome clicks on MIDI channel 10 with accent patterns, subdivision
//! clicks, selectable sound sets and count-in support.

use vstd::prelude::*;

use super::beat_clock::SubdivisionCrossing;
use super::config::{AccentLevel, MetronomeSound, MetronomeSubdivision};
use crate::midi_wire::{note_off_bytes, note_off_status, note_on_bytes, note_on_status};

verus! {

/// Accent velocity before volume scaling.
pub const VEL_ACCENT: u8 = 127;

/// Normal click velocity before volume scaling.
pub const VEL_NORMAL: u8 = 100;

/// Ghost click velocity before volume scaling.
pub const VEL_GHOST: u8 = 60;

/// 8th-note subdivision velocity before volume scaling.
pub const VEL_EIGHTH_SUB: u8 = 70;

/// 16th-note subdivision velocity before volume scaling.
pub const VEL_SIXTEENTH_SUB: u8 = 50;

/// The percussion channel (channel 10, index 9).
pub const PERCUSSION_CHANNEL: u8 = 9;

/// Generates MIDI metronome clicks on channel 10 (percussion).
pub struct Metronome {
    /// Whether clicks are generated.
    pub enabled: bool,
    /// How many count-in beats are left.
    count_in_beats_remaining: u32,
    /// Whether a count-in is in progress.
    count_in_active: bool,
}

/// Count-in state: beats remaining and whether a count-in is in progress.
pub struct CountIn {
    pub remaining: nat,
    pub active: bool,
}

/// One count-in tick: a beat is consumed, and the count-in ends with the
/// last one.
pub open spec fn spec_tick(s: CountIn) -> CountIn {
    let remaining: nat = if s.remaining > 0 { (s.remaining - 1) as nat } else { 0 };
    CountIn { remaining, active: if remaining == 0 { false } else { s.active } }
}

/// The count-in state after `k` ticks.
pub open spec fn spec_ticks(s: CountIn, k: nat) -> CountIn
    decreases k,
{
    if k == 0 {
        s
    } else {
        spec_tick(spec_ticks(s, (k - 1) as nat))
    }
}

/// Note and base velocity of the click for a subdivision crossing, if any:
/// the beat's accent (note of the set, velocity by level; muted beats are
/// silent, beats beyond the pattern are normal), 8th offbeats with 8th or
/// 16th subdivision, 16th slots with 16th subdivision.
pub open spec fn spec_click_plan(
    crossing: SubdivisionCrossing,
    sound: MetronomeSound,
    subdivision: MetronomeSubdivision,
    accents: Seq<AccentLevel>,
) -> Option<(u8, u8)> {
    let (accent_note, normal_note, sub_note) = sound.spec_midi_notes();
    if crossing.sixteenth == 0 {
        let level = if crossing.beat < accents.len() { accents[crossing.beat as int] } else { AccentLevel::Normal };
        match level {
            AccentLevel::Mute => None,
            AccentLevel::Accent => Some((accent_note, VEL_ACCENT)),
            AccentLevel::Normal => Some((normal_note, VEL_NORMAL)),
            AccentLevel::GhostNote => Some((normal_note, VEL_GHOST)),
        }
    } else if crossing.sixteenth == 2 {
        match subdivision {
            MetronomeSubdivision::Quarter => None,
            _ => Some((sub_note, VEL_EIGHTH_SUB)),
        }
    } else if crossing.sixteenth == 1 || crossing.sixteenth == 3 {
        match subdivision {
            MetronomeSubdivision::Sixteenth => Some((sub_note, VEL_SIXTEENTH_SUB)),
            _ => None,
        }
    } else {
        None
    }
}

/// Which crossings click, and how: with 16th subdivision both off-8th
/// sixteenths of every beat (slots 1 and 3) click with the subdivision note
/// at the 16th velocity, and not otherwise; the 8th offbeat (slot 2) clicks
/// with the subdivision note at the 8th velocity unless only quarters are
/// selected; a beat's downbeat follows its accent, normal beyond the pattern.
pub proof fn lemma_click_plan_rules(
    crossing: SubdivisionCrossing,
    sound: MetronomeSound,
    subdivision: MetronomeSubdivision,
    accents: Seq<AccentLevel>,
)
    ensures
        (crossing.sixteenth == 1 || crossing.sixteenth == 3) ==> spec_click_plan(crossing, sound, subdivision, accents)
            == if subdivision == MetronomeSubdivision::Sixteenth {
            Some((sound.spec_midi_notes().2, VEL_SIXTEENTH_SUB))
        } else {
            None::<(u8, u8)>
        },
        crossing.sixteenth == 2 ==> spec_click_plan(crossing, sound, subdivision, accents) == if subdivision
            == MetronomeSubdivision::Quarter {
            None::<(u8, u8)>
        } else {
            Some((sound.spec_midi_notes().2, VEL_EIGHTH_SUB))
        },
        crossing.sixteenth == 0 && crossing.beat < accents.len() && accents[crossing.beat as int]
            == AccentLevel::Mute ==> spec_click_plan(crossing, sound, subdivision, accents) is None,
        crossing.sixteenth == 0 && crossing.beat < accents.len() && accents[crossing.beat as int]
            == AccentLevel::Accent ==> spec_click_plan(crossing, sound, subdivision, accents) == Some(
            (sound.spec_midi_notes().0, VEL_ACCENT),
        ),
        crossing.sixteenth == 0 && (crossing.beat >= accents.len() || accents[crossing.beat as int]
            == AccentLevel::Normal) ==> spec_click_plan(crossing, sound, subdivision, accents) == Some(
            (sound.spec_midi_notes().1, VEL_NORMAL),
        ),
        crossing.sixteenth > 3 ==> spec_click_plan(crossing, sound, subdivision, accents) is None,
{
}

impl Metronome {
    /// Whether clicks are generated (the public `enabled` field).
    pub closed spec fn is_enabled(self) -> bool {
        self.enabled
    }

    /// The count-in state.
    pub closed spec fn count_in(self) -> CountIn {
        CountIn { remaining: self.count_in_beats_remaining as nat, active: self.count_in_active }
    }

    /// A disabled metronome with no count-in.
    pub fn new() -> (r: Metronome)
        ensures
            !r.is_enabled(),
            r.count_in() == (CountIn { remaining: 0, active: false }),
    {
        Metronome { enabled: false, count_in_beats_remaining: 0, count_in_active: false }
    }

    /// Starts a count-in of `count_in_bars` bars of `beats_per_bar` beats and
    /// returns the number of count-in beats.
    pub fn start_count_in(&mut self, count_in_bars: u8, beats_per_bar: u8) -> (r: u32)
        ensures
            r == count_in_bars * beats_per_bar,
            final(self).count_in() == (CountIn { remaining: r as nat, active: r > 0 }),
            final(self).is_enabled() == old(self).is_enabled(),
    {
        assert(count_in_bars * beats_per_bar <= 255 * 255) by (nonlinear_arith)
            requires
                count_in_bars <= 255,
                beats_per_bar <= 255,
        ;
        let total: u32 = count_in_bars as u32 * beats_per_bar as u32;
        self.count_in_beats_remaining = total;
        self.count_in_active = total > 0;
        total
    }

    /// Turns clicks on or off; the count-in is unchanged.
    pub fn set_enabled(&mut self, on: bool)
        ensures
            final(self).is_enabled() == on,
            final(self).count_in() == old(self).count_in(),
    {
        self.enabled = on;
    }

    /// Returns true if count-in is still in progress.
    pub fn is_counting_in(&self) -> (r: bool)
        ensures
            r == self.count_in().active,
    {
        self.count_in_active
    }

    /// Consumes one count-in beat; returns whether the count-in goes on.
    pub fn tick_count_in(&mut self) -> (r: bool)
        ensures
            final(self).count_in() == spec_tick(old(self).count_in()),
            r == final(self).count_in().active,
            final(self).is_enabled() == old(self).is_enabled(),
    {
        if self.count_in_beats_remaining > 0 {
            self.count_in_beats_remaining = self.count_in_beats_remaining - 1;
        }
        if self.count_in_beats_remaining == 0 {
            self.count_in_active = false;
        }
        self.count_in_active
    }

    /// Note and base velocity of the click for a subdivision crossing (the
    /// application scales the velocity by the metronome volume); `None` when
    /// disabled or when the crossing is silent.
    pub fn click_plan(
        &self,
        crossing: &SubdivisionCrossing,
        sound: MetronomeSound,
        subdivision: MetronomeSubdivision,
        accents: &[AccentLevel],
    ) -> (r: Option<(u8, u8)>)
        ensures
            r == if self.is_enabled() {
                spec_click_plan(*crossing, sound, subdivision, accents@)
            } else {
                None
            },
    {
        if !self.enabled {
            return None;
        }
        let (accent_note, normal_note, sub_note) = sound.midi_notes();
        if crossing.sixteenth == 0 {
            let level = if (crossing.beat as usize) < accents.len() {
                accents[crossing.beat as usize]
            } else {
                AccentLevel::Normal
            };
            match level {
                AccentLevel::Mute => None,
                AccentLevel::Accent => Some((accent_note, VEL_ACCENT)),
                AccentLevel::Normal => Some((normal_note, VEL_NORMAL)),
                AccentLevel::GhostNote => Some((normal_note, VEL_GHOST)),
            }
        } else if crossing.sixteenth == 2 {
            match subdivision {
                MetronomeSubdivision::Quarter => None,
                _ => Some((sub_note, VEL_EIGHTH_SUB)),
            }
        } else if crossing.sixteenth == 1 || crossing.sixteenth == 3 {
            match subdivision {
                MetronomeSubdivision::Sixteenth => Some((sub_note, VEL_SIXTEENTH_SUB)),
                _ => None,
            }
        } else {
            None
        }
    }

    /// A Note Off for a given MIDI note on channel 10.
    pub fn generate_click_off_for_note(&self, midi_note: u8) -> (r: Vec<u8>)
        requires
            midi_note <= 127,
        ensures
            r@ == seq![note_off_status(PERCUSSION_CHANNEL), midi_note, 0u8],
    {
        make_note_off(midi_note)
    }

    /// A Note On click for a beat: beat 0 plays the high woodblock (76) at
    /// accent velocity, other beats the low woodblock (77) at normal velocity.
    pub fn generate_click(&self, beat_number: u8) -> (r: Vec<u8>)
        ensures
            r@ == seq![
                note_on_status(PERCUSSION_CHANNEL),
                if beat_number == 0 { 76u8 } else { 77u8 },
                if beat_number == 0 { VEL_ACCENT } else { VEL_NORMAL },
            ],
    {
        let midi_note: u8 = if beat_number == 0 {
            76
        } else {
            77
        };
        let vel = if beat_number == 0 {
            VEL_ACCENT
        } else {
            VEL_NORMAL
        };
        make_note_on(midi_note, vel)
    }

    /// The Note Off matching `generate_click` for a beat.
    pub fn generate_click_off(&self, beat_number: u8) -> (r: Vec<u8>)
        ensures
            r@ == seq![note_off_status(PERCUSSION_CHANNEL), if beat_number == 0 { 76u8 } else { 77u8 }, 0u8],
    {
        let midi_note: u8 = if beat_number == 0 {
            76
        } else {
            77
        };
        make_note_off(midi_note)
    }
}

/// A Note On on channel 10, the velocity clamped to 1-127.
pub fn make_note_on(midi_note: u8, vel: u8) -> (r: Vec<u8>)
    requires
        midi_note <= 127,
    ensures
        r@ == seq![note_on_status(PERCUSSION_CHANNEL), midi_note, if vel < 1 { 1u8 } else if vel > 127 { 127u8 } else { vel }],
{
    let v: u8 = if vel < 1 {
        1
    } else if vel > 127 {
        127
    } else {
        vel
    };
    note_on_bytes(PERCUSSION_CHANNEL, midi_note, v)
}

/// A Note Off (velocity 0) on channel 10.
pub fn make_note_off(midi_note: u8) -> (r: Vec<u8>)
    requires
        midi_note <= 127,
    ensures
        r@ == seq![note_off_status(PERCUSSION_CHANNEL), midi_note, 0u8],
{
    note_off_bytes(PERCUSSION_CHANNEL, midi_note, 0)
}

/// A count-in of `n > 0` beats goes on through the first `n - 1` ticks and
/// ends with the `n`-th.
pub proof fn lemma_count_in_lasts(n: nat, k: nat)
    requires
        n > 0,
        1 <= k <= n,
    ensures
        spec_ticks(CountIn { remaining: n, active: true }, k).active == (k < n),
        spec_ticks(CountIn { remaining: n, active: true }, k).remaining == n - k,
    decreases k,
{
    let s = CountIn { remaining: n, active: true };
    if k > 1 {
        lemma_count_in_lasts(n, (k - 1) as nat);
    } else {
        assert(spec_ticks(s, 0) == s);
    }
    assert(spec_ticks(s, k) == spec_tick(spec_ticks(s, (k - 1) as nat)));
}

} // verus!
