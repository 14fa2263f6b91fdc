//! Support for hosted audio plugins: descriptors of the bundles found on
//! disk, and the MIDI event queue a plugin block drains on the audio thread.

pub mod discovery;
pub mod midi_ring;
