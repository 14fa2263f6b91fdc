//! Named groove presets for the humanization system.

use vstd::prelude::*;

verus! {

/// Named groove preset that bundles humanization settings.
#[derive(Clone, Copy, Debug, PartialEq, Eq, Structural)]
pub enum GrooveTemplate {
    /// No swing, no jitter, no variation. Metronomically precise.
    Straight,
    /// Light swing feel with subtle timing and velocity variation.
    SwingLight,
    /// Heavy swing with triplet character and wider variation.
    SwingHeavy,
    /// Pushed, aggressive feel with stronger on-beat accents.
    Push,
    /// Lazy, behind-the-beat feel with extended note durations.
    Drag,
    /// True triplet shuffle (swing about a third).
    Shuffle,
    /// Hip-hop groove with moderate swing and velocity variation.
    HipHop,
    /// Jazz feel with wide timing and dynamic range.
    Jazz,
}

/// The humanization settings a groove preset writes.
#[derive(Clone, Copy, Debug, PartialEq, Eq, Structural)]
pub struct GrooveSettings {
    /// Swing amount in hundredths (0 = straight, 50 = half a beat's delay).
    pub swing_percent: u8,
    /// Minimum timing jitter in milliseconds.
    pub jitter_min_ms: u16,
    /// Maximum timing jitter in milliseconds.
    pub jitter_max_ms: u16,
    /// Velocity variation (+/-).
    pub velocity_variation: u8,
    /// Maximum note duration extension in milliseconds.
    pub duration_variation_ms: u16,
}

impl GrooveTemplate {
    /// Display name of the template.
    pub open spec fn spec_name(self) -> Seq<char> {
        match self {
            GrooveTemplate::Straight => "Straight"@,
            GrooveTemplate::SwingLight => "Swing Light"@,
            GrooveTemplate::SwingHeavy => "Swing Heavy"@,
            GrooveTemplate::Push => "Push"@,
            GrooveTemplate::Drag => "Drag"@,
            GrooveTemplate::Shuffle => "Shuffle"@,
            GrooveTemplate::HipHop => "Hip Hop"@,
            GrooveTemplate::Jazz => "Jazz"@,
        }
    }

    /// Display name for the template.
    pub fn name(&self) -> (r: &'static str)
        ensures
            r@ == self.spec_name(),
    {
        match self {
            GrooveTemplate::Straight => "Straight",
            GrooveTemplate::SwingLight => "Swing Light",
            GrooveTemplate::SwingHeavy => "Swing Heavy",
            GrooveTemplate::Push => "Push",
            GrooveTemplate::Drag => "Drag",
            GrooveTemplate::Shuffle => "Shuffle",
            GrooveTemplate::HipHop => "Hip Hop",
            GrooveTemplate::Jazz => "Jazz",
        }
    }

    /// The settings of each template: (swing %, jitter min, jitter max,
    /// velocity variation, duration variation).
    pub open spec fn spec_settings(self) -> GrooveSettings {
        match self {
            GrooveTemplate::Straight => GrooveSettings {
                swing_percent: 0,
                jitter_min_ms: 0,
                jitter_max_ms: 0,
                velocity_variation: 0,
                duration_variation_ms: 0,
            },
            GrooveTemplate::SwingLight => GrooveSettings {
                swing_percent: 20,
                jitter_min_ms: 1,
                jitter_max_ms: 5,
                velocity_variation: 5,
                duration_variation_ms: 0,
            },
            GrooveTemplate::SwingHeavy => GrooveSettings {
                swing_percent: 45,
                jitter_min_ms: 2,
                jitter_max_ms: 8,
                velocity_variation: 10,
                duration_variation_ms: 0,
            },
            GrooveTemplate::Push => GrooveSettings {
                swing_percent: 0,
                jitter_min_ms: 0,
                jitter_max_ms: 3,
                velocity_variation: 15,
                duration_variation_ms: 0,
            },
            GrooveTemplate::Drag => GrooveSettings {
                swing_percent: 15,
                jitter_min_ms: 5,
                jitter_max_ms: 15,
                velocity_variation: 8,
                duration_variation_ms: 30,
            },
            GrooveTemplate::Shuffle => GrooveSettings {
                swing_percent: 33,
                jitter_min_ms: 1,
                jitter_max_ms: 3,
                velocity_variation: 0,
                duration_variation_ms: 0,
            },
            GrooveTemplate::HipHop => GrooveSettings {
                swing_percent: 30,
                jitter_min_ms: 2,
                jitter_max_ms: 6,
                velocity_variation: 12,
                duration_variation_ms: 0,
            },
            GrooveTemplate::Jazz => GrooveSettings {
                swing_percent: 40,
                jitter_min_ms: 3,
                jitter_max_ms: 12,
                velocity_variation: 18,
                duration_variation_ms: 25,
            },
        }
    }

    /// The humanization settings this template applies (the application
    /// writes them into its configuration, leaving transport, metronome and
    /// enable toggles untouched).
    pub fn settings(&self) -> (r: GrooveSettings)
        ensures
            r == self.spec_settings(),
            r.jitter_min_ms <= r.jitter_max_ms,
            r.swing_percent <= 50,
    {
        match self {
            GrooveTemplate::Straight => GrooveSettings {
                swing_percent: 0,
                jitter_min_ms: 0,
                jitter_max_ms: 0,
                velocity_variation: 0,
                duration_variation_ms: 0,
            },
            GrooveTemplate::SwingLight => GrooveSettings {
                swing_percent: 20,
                jitter_min_ms: 1,
                jitter_max_ms: 5,
                velocity_variation: 5,
                duration_variation_ms: 0,
            },
            GrooveTemplate::SwingHeavy => GrooveSettings {
                swing_percent: 45,
                jitter_min_ms: 2,
                jitter_max_ms: 8,
                velocity_variation: 10,
                duration_variation_ms: 0,
            },
            GrooveTemplate::Push => GrooveSettings {
                swing_percent: 0,
                jitter_min_ms: 0,
                jitter_max_ms: 3,
                velocity_variation: 15,
                duration_variation_ms: 0,
            },
            GrooveTemplate::Drag => GrooveSettings {
                swing_percent: 15,
                jitter_min_ms: 5,
                jitter_max_ms: 15,
                velocity_variation: 8,
                duration_variation_ms: 30,
            },
            GrooveTemplate::Shuffle => GrooveSettings {
                swing_percent: 33,
                jitter_min_ms: 1,
                jitter_max_ms: 3,
                velocity_variation: 0,
                duration_variation_ms: 0,
            },
            GrooveTemplate::HipHop => GrooveSettings {
                swing_percent: 30,
                jitter_min_ms: 2,
                jitter_max_ms: 6,
                velocity_variation: 12,
                duration_variation_ms: 0,
            },
            GrooveTemplate::Jazz => GrooveSettings {
                swing_percent: 40,
                jitter_min_ms: 3,
                jitter_max_ms: 12,
                velocity_variation: 18,
                duration_variation_ms: 25,
            },
        }
    }
}

/// Returns all available groove templates, for UI enumeration.
pub fn all_templates() -> (r: &'static [GrooveTemplate])
    ensures
        r@ == seq![
            GrooveTemplate::Straight,
            GrooveTemplate::SwingLight,
            GrooveTemplate::SwingHeavy,
            GrooveTemplate::Push,
            GrooveTemplate::Drag,
            GrooveTemplate::Shuffle,
            GrooveTemplate::HipHop,
            GrooveTemplate::Jazz,
        ],
{
    let r: &'static [GrooveTemplate] = &[
        GrooveTemplate::Straight,
        GrooveTemplate::SwingLight,
        GrooveTemplate::SwingHeavy,
        GrooveTemplate::Push,
        GrooveTemplate::Drag,
        GrooveTemplate::Shuffle,
        GrooveTemplate::HipHop,
        GrooveTemplate::Jazz,
    ];
    r
}

} // verus!
