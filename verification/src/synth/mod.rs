//! The built-in synth's runtime parameters, the event queue from the
//! router thread to the audio thread, and its voice allocation.

pub mod params;
pub mod voice;

pub use params::{SynthEvent, SynthParams, Waveform};
