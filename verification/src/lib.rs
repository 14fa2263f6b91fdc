//! Real-time MIDI harmony generation: scales, harmony algorithms, voice
//! leading, humanization helpers and the wire protocol, with contracts.

pub mod harmony;
pub mod humanize;
pub mod midi;
pub mod midi_defaults;
pub mod midi_wire;
pub mod plugin_host;
pub mod preset;
pub mod router;
pub mod server;
pub mod slide;
pub mod synth;
