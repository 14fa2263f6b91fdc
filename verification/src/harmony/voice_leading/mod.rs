//! Voice leading: style rules, rule checks and chord revoicing.

pub mod rules;
pub mod styles;
pub mod voicer;

pub use styles::{StyleRules, VoiceLeadingStyle};
pub use voicer::{revoice_chord, VoiceAnchor, VoiceRegister};
