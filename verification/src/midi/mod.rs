//! MIDI port selection: which choices of ports the application accepts.

pub mod ports;
