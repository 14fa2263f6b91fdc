//! Metronome, velocity and swing settings of the humanization system.

use vstd::prelude::*;

verus! {

/// Accent level for a single beat in the metronome pattern.
#[derive(Clone, Copy, Debug, PartialEq, Eq, Structural)]
pub enum AccentLevel {
    /// Full accent (typically beat 1).
    Accent,
    /// Normal click.
    Normal,
    /// Soft ghost click.
    GhostNote,
    /// Silent: skip this beat.
    Mute,
}

/// The default accent pattern: an accented downbeat and three normal
/// beats.
pub fn default_accent_pattern() -> (r: Vec<AccentLevel>)
    ensures
        r@ == seq![AccentLevel::Accent, AccentLevel::Normal, AccentLevel::Normal, AccentLevel::Normal],
{
    let r = vec![AccentLevel::Accent, AccentLevel::Normal, AccentLevel::Normal, AccentLevel::Normal];
    assert(r@ =~= seq![AccentLevel::Accent, AccentLevel::Normal, AccentLevel::Normal, AccentLevel::Normal]);
    r
}

/// Subdivision depth for metronome clicks.
#[derive(Clone, Copy, Debug, PartialEq, Eq, Structural)]
pub enum MetronomeSubdivision {
    /// Quarter-note clicks only (whole beats).
    Quarter,
    /// Add 8th-note subdivision clicks between beats.
    Eighth,
    /// Add 16th-note subdivision clicks between beats.
    Sixteenth,
}

impl Default for MetronomeSubdivision {
    /// Quarter-note clicks only.
    fn default() -> (r: Self)
        ensures
            r == MetronomeSubdivision::Quarter,
    {
        MetronomeSubdivision::Quarter
    }
}

/// Sound set for metronome clicks (MIDI percussion note mappings).
#[derive(Clone, Copy, Debug, PartialEq, Eq, Structural)]
pub enum MetronomeSound {
    /// High/low woodblock (notes 76/77).
    Woodblock,
    /// Side stick / rimshot (note 37, velocity differentiates accents).
    Rimshot,
    /// Cowbell (note 56, velocity differentiates accents).
    Cowbell,
    /// Closed hi-hat (note 42, velocity differentiates accents).
    HiHat,
}

impl Default for MetronomeSound {
    /// The woodblock set.
    fn default() -> (r: Self)
        ensures
            r == MetronomeSound::Woodblock,
    {
        MetronomeSound::Woodblock
    }
}

impl MetronomeSound {
    /// (accent, normal, subdivision) notes of the set.
    pub open spec fn spec_midi_notes(self) -> (u8, u8, u8) {
        match self {
            MetronomeSound::Woodblock => (76, 77, 42),
            MetronomeSound::Rimshot => (37, 37, 42),
            MetronomeSound::Cowbell => (56, 56, 42),
            MetronomeSound::HiHat => (42, 42, 42),
        }
    }

    /// Returns (accent_note, normal_note, subdivision_note) MIDI note numbers.
    pub fn midi_notes(&self) -> (r: (u8, u8, u8))
        ensures
            r == self.spec_midi_notes(),
    {
        match self {
            MetronomeSound::Woodblock => (76, 77, 42),
            MetronomeSound::Rimshot => (37, 37, 42),
            MetronomeSound::Cowbell => (56, 56, 42),
            MetronomeSound::HiHat => (42, 42, 42),
        }
    }
}

/// Velocity variation distribution shape.
#[derive(Clone, Copy, Debug, PartialEq, Eq, Structural)]
pub enum VelocityDistribution {
    /// Flat random variation.
    Uniform,
    /// Bell curve centered on the incoming velocity.
    Gaussian,
    /// Asymmetric: more likely softer, occasionally louder.
    Pareto,
}

impl Default for VelocityDistribution {
    /// Uniform variation.
    fn default() -> (r: Self)
        ensures
            r == VelocityDistribution::Uniform,
    {
        VelocityDistribution::Uniform
    }
}

/// How swing delay is interpolated from the swing amount.
#[derive(Clone, Copy, Debug, PartialEq, Eq, Structural)]
pub enum SwingCurve {
    /// Proportional delay: delay = amount * half-beat duration.
    Linear,
    /// Snap toward triplet feel.
    Triplet,
    /// Gentle onset, steep at high values.
    Logarithmic,
}

impl Default for SwingCurve {
    /// Linear interpolation.
    fn default() -> (r: Self)
        ensures
            r == SwingCurve::Linear,
    {
        SwingCurve::Linear
    }
}

} // verus!
