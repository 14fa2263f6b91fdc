//! Humanization helpers: note humanization, metronome, groove presets and
//! beat subdivisions.

pub mod beat_clock;
pub mod config;
pub mod engine;
pub mod groove;
pub mod metronome;

pub use beat_clock::{SubdivisionCrossing, SubdivisionPhase};
pub use config::{AccentLevel, MetronomeSound, MetronomeSubdivision, SwingCurve, VelocityDistribution};
pub use groove::{all_templates, GrooveSettings, GrooveTemplate};
pub use metronome::Metronome;
