//! Voice leading style presets with hard vs soft constraint distinction.

use vstd::prelude::*;

verus! {

/// Voice leading style presets.
#[derive(Clone, Copy, Debug, PartialEq, Eq, Structural)]
pub enum VoiceLeadingStyle {
    /// Renaissance polyphony: strictest rules.
    Palestrina,
    /// Baroque four-part writing.
    BachChorale,
    /// Extended harmony, relaxed parallels.
    Jazz,
    /// Minimal constraints.
    Free,
}

impl Default for VoiceLeadingStyle {
    fn default() -> (r: Self)
        ensures
            r == VoiceLeadingStyle::Free,
    {
        VoiceLeadingStyle::Free
    }
}

impl VoiceLeadingStyle {
    /// Human-readable description of a style.
    pub open spec fn spec_description(self) -> Seq<char> {
        match self {
            VoiceLeadingStyle::Palestrina => "Palestrina (Renaissance polyphony)"@,
            VoiceLeadingStyle::BachChorale => "Bach Chorale (Baroque four-part)"@,
            VoiceLeadingStyle::Jazz => "Jazz (extended harmony)"@,
            VoiceLeadingStyle::Free => "Free (minimal constraints)"@,
        }
    }

    /// Returns all styles for menu display.
    pub fn all() -> (r: &'static [VoiceLeadingStyle])
        ensures
            r@ == seq![
                VoiceLeadingStyle::Palestrina,
                VoiceLeadingStyle::BachChorale,
                VoiceLeadingStyle::Jazz,
                VoiceLeadingStyle::Free,
            ],
    {
        let r: &'static [VoiceLeadingStyle] = &[
            VoiceLeadingStyle::Palestrina,
            VoiceLeadingStyle::BachChorale,
            VoiceLeadingStyle::Jazz,
            VoiceLeadingStyle::Free,
        ];
        assert(r@ =~= seq![
            VoiceLeadingStyle::Palestrina,
            VoiceLeadingStyle::BachChorale,
            VoiceLeadingStyle::Jazz,
            VoiceLeadingStyle::Free,
        ]);
        r
    }

    /// Returns a human-readable description (also the display text).
    pub fn description(&self) -> (r: &'static str)
        ensures
            r@ == self.spec_description(),
    {
        match self {
            VoiceLeadingStyle::Palestrina => "Palestrina (Renaissance polyphony)",
            VoiceLeadingStyle::BachChorale => "Bach Chorale (Baroque four-part)",
            VoiceLeadingStyle::Jazz => "Jazz (extended harmony)",
            VoiceLeadingStyle::Free => "Free (minimal constraints)",
        }
    }
}

/// Style rules: hard constraints (reject) and soft penalties (score).
#[derive(Clone, Copy, Debug, PartialEq, Eq, Structural)]
pub struct StyleRules {
    /// If true, any parallel fifths cause outright rejection.
    pub hard_reject_parallel_fifths: bool,
    /// If true, any parallel octaves cause outright rejection.
    pub hard_reject_parallel_octaves: bool,
    /// Penalty for parallel fifths (when not hard-rejected).
    pub parallel_fifths_penalty: i32,
    /// Penalty for parallel octaves (when not hard-rejected).
    pub parallel_octaves_penalty: i32,
    /// Penalty per voice-crossing pair.
    pub voice_crossing_penalty: i32,
    /// Bonus for stepwise motion (1-2 semitones).
    pub stepwise_bonus: i32,
    /// Bonus for retaining common tones between chords.
    pub common_tone_bonus: i32,
    /// Penalty per semitone of leap.
    pub leap_penalty_per_semitone: i32,
    /// Maximum allowed leap in semitones.
    pub max_leap_semitones: u8,
    /// Penalty when all harmony voices move in parallel.
    pub all_parallel_motion_penalty: i32,
    /// Penalty per spacing violation.
    pub spacing_violation_penalty: i32,
}

/// The rules of each style.
pub open spec fn spec_rules_for(style: VoiceLeadingStyle) -> StyleRules {
    match style {
        VoiceLeadingStyle::Palestrina => StyleRules {
            hard_reject_parallel_fifths: true,
            hard_reject_parallel_octaves: true,
            parallel_fifths_penalty: -50i32,
            parallel_octaves_penalty: -50i32,
            voice_crossing_penalty: -80i32,
            stepwise_bonus: 15i32,
            common_tone_bonus: 12i32,
            leap_penalty_per_semitone: -3i32,
            max_leap_semitones: 7,
            all_parallel_motion_penalty: -50i32,
            spacing_violation_penalty: -100i32,
        },
        VoiceLeadingStyle::BachChorale => StyleRules {
            hard_reject_parallel_fifths: true,
            hard_reject_parallel_octaves: true,
            parallel_fifths_penalty: -40i32,
            parallel_octaves_penalty: -40i32,
            voice_crossing_penalty: -60i32,
            stepwise_bonus: 10i32,
            common_tone_bonus: 10i32,
            leap_penalty_per_semitone: -2i32,
            max_leap_semitones: 12,
            all_parallel_motion_penalty: -30i32,
            spacing_violation_penalty: -50i32,
        },
        VoiceLeadingStyle::Jazz => StyleRules {
            hard_reject_parallel_fifths: false,
            hard_reject_parallel_octaves: false,
            parallel_fifths_penalty: -5i32,
            parallel_octaves_penalty: -5i32,
            voice_crossing_penalty: -20i32,
            stepwise_bonus: 4i32,
            common_tone_bonus: 3i32,
            leap_penalty_per_semitone: -1i32,
            max_leap_semitones: 127,
            all_parallel_motion_penalty: -10i32,
            spacing_violation_penalty: -10i32,
        },
        VoiceLeadingStyle::Free => StyleRules {
            hard_reject_parallel_fifths: false,
            hard_reject_parallel_octaves: false,
            parallel_fifths_penalty: -2i32,
            parallel_octaves_penalty: -2i32,
            voice_crossing_penalty: -5i32,
            stepwise_bonus: 3i32,
            common_tone_bonus: 2i32,
            leap_penalty_per_semitone: 0i32,
            max_leap_semitones: 127,
            all_parallel_motion_penalty: -5i32,
            spacing_violation_penalty: -5i32,
        },
    }
}

impl StyleRules {
    /// Returns the style rules for a given voice leading style.
    pub fn for_style(style: VoiceLeadingStyle) -> (r: StyleRules)
        ensures
            r == spec_rules_for(style),
    {
        match style {
            VoiceLeadingStyle::Palestrina => StyleRules {
                hard_reject_parallel_fifths: true,
                hard_reject_parallel_octaves: true,
                parallel_fifths_penalty: -50i32,
                parallel_octaves_penalty: -50i32,
                voice_crossing_penalty: -80i32,
                stepwise_bonus: 15i32,
                common_tone_bonus: 12i32,
                leap_penalty_per_semitone: -3i32,
                max_leap_semitones: 7,
                all_parallel_motion_penalty: -50i32,
                spacing_violation_penalty: -100i32,
            },
            VoiceLeadingStyle::BachChorale => StyleRules {
                hard_reject_parallel_fifths: true,
                hard_reject_parallel_octaves: true,
                parallel_fifths_penalty: -40i32,
                parallel_octaves_penalty: -40i32,
                voice_crossing_penalty: -60i32,
                stepwise_bonus: 10i32,
                common_tone_bonus: 10i32,
                leap_penalty_per_semitone: -2i32,
                max_leap_semitones: 12,
                all_parallel_motion_penalty: -30i32,
                spacing_violation_penalty: -50i32,
            },
            VoiceLeadingStyle::Jazz => StyleRules {
                hard_reject_parallel_fifths: false,
                hard_reject_parallel_octaves: false,
                parallel_fifths_penalty: -5i32,
                parallel_octaves_penalty: -5i32,
                voice_crossing_penalty: -20i32,
                stepwise_bonus: 4i32,
                common_tone_bonus: 3i32,
                leap_penalty_per_semitone: -1i32,
                max_leap_semitones: 127,
                all_parallel_motion_penalty: -10i32,
                spacing_violation_penalty: -10i32,
            },
            VoiceLeadingStyle::Free => StyleRules {
                hard_reject_parallel_fifths: false,
                hard_reject_parallel_octaves: false,
                parallel_fifths_penalty: -2i32,
                parallel_octaves_penalty: -2i32,
                voice_crossing_penalty: -5i32,
                stepwise_bonus: 3i32,
                common_tone_bonus: 2i32,
                leap_penalty_per_semitone: 0i32,
                max_leap_semitones: 127,
                all_parallel_motion_penalty: -5i32,
                spacing_violation_penalty: -5i32,
            },
        }
    }
}

} // verus!
