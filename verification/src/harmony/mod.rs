//! Harmony generation: keys, scale modes, scales and harmony algorithms.

pub mod config;
pub mod engine;
pub mod functional;
pub mod key_detect;
pub mod modes;
pub mod scale;
pub mod stateful;
pub mod suggestion;
pub mod voice_leading;

pub use config::{HarmonyMode, Key, OctaveMode, RoutingMode, ScaleFamily, ScaleMode};
pub use engine::HarmonyEngine;
pub use scale::Scale;
