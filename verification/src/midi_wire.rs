//! MIDI channel-voice messages encoded with `wmidi`.

use vstd::prelude::*;

verus! {

/// Status byte of a Note On message on `channel` (0-15).
pub open spec fn note_on_status(channel: u8) -> u8 {
    (0x90 + channel) as u8
}

/// Status byte of a Note Off message on `channel` (0-15).
pub open spec fn note_off_status(channel: u8) -> u8 {
    (0x80 + channel) as u8
}

/// Encodes a Note On message with `wmidi::MidiMessage::NoteOn` and
/// `copy_to_slice`, which writes `0x90 | channel`, the note and the velocity.
#[verifier::external_body]
pub(crate) fn note_on_bytes(channel: u8, note: u8, velocity: u8) -> (r: Vec<u8>)
    requires
        channel < 16,
        note <= 127,
        velocity <= 127,
    ensures
        r@ == seq![note_on_status(channel), note, velocity],
{
    let msg = wmidi::MidiMessage::NoteOn(
        wmidi::Channel::from_index(channel).unwrap(),
        wmidi::Note::try_from(note).unwrap(),
        wmidi::Velocity::try_from(velocity).unwrap(),
    );
    let mut buf = vec![0u8; msg.bytes_size()];
    msg.copy_to_slice(&mut buf).unwrap();
    buf
}

/// Encodes a Note Off message with `wmidi::MidiMessage::NoteOff` and
/// `copy_to_slice`, which writes `0x80 | channel`, the note and the velocity.
#[verifier::external_body]
pub(crate) fn note_off_bytes(channel: u8, note: u8, velocity: u8) -> (r: Vec<u8>)
    requires
        channel < 16,
        note <= 127,
        velocity <= 127,
    ensures
        r@ == seq![note_off_status(channel), note, velocity],
{
    let msg = wmidi::MidiMessage::NoteOff(
        wmidi::Channel::from_index(channel).unwrap(),
        wmidi::Note::try_from(note).unwrap(),
        wmidi::Velocity::try_from(velocity).unwrap(),
    );
    let mut buf = vec![0u8; msg.bytes_size()];
    msg.copy_to_slice(&mut buf).unwrap();
    buf
}

/// A MIDI message as the harmony session handles it.
#[derive(Clone, Copy, Debug, PartialEq, Eq, Structural)]
pub enum MidiEvent {
    /// Note On with a non-zero velocity.
    NoteOn { channel: u8, note: u8, velocity: u8 },
    /// Note Off, or Note On with velocity zero.
    NoteOff { channel: u8, note: u8, velocity: u8 },
    /// Any other message, or bytes that are not a valid message.
    Other,
}

/// How `wmidi` reads a message's first bytes: a status byte, then two data
/// bytes (below 0x80); status 0x8n is a Note Off on channel n, status 0x9n a
/// Note On, or a Note Off when its velocity is zero.
pub open spec fn spec_midi_event(b: Seq<u8>) -> MidiEvent {
    if b.len() >= 3 && b[0] >= 0x80 && b[1] < 0x80 && b[2] < 0x80 {
        let channel = (b[0] % 16) as u8;
        if b[0] / 16 == 8 {
            MidiEvent::NoteOff { channel, note: b[1], velocity: b[2] }
        } else if b[0] / 16 == 9 {
            if b[2] == 0 {
                MidiEvent::NoteOff { channel, note: b[1], velocity: 0 }
            } else {
                MidiEvent::NoteOn { channel, note: b[1], velocity: b[2] }
            }
        } else {
            MidiEvent::Other
        }
    } else {
        MidiEvent::Other
    }
}

/// Parses MIDI bytes with `wmidi::MidiMessage::try_from`, which (as its
/// source shows) checks the status byte, takes the channel from its low
/// nibble, requires each data byte it reads to be below 0x80, and turns a
/// Note On with velocity zero into a Note Off. Note messages are kept; every
/// other message and every error become `Other`.
#[verifier::external_body]
pub(crate) fn parse_midi_event(bytes: &[u8]) -> (r: MidiEvent)
    ensures
        r == spec_midi_event(bytes@),
{
    match wmidi::MidiMessage::try_from(bytes) {
        Ok(wmidi::MidiMessage::NoteOn(c, n, v)) => MidiEvent::NoteOn {
            channel: c.index(),
            note: u8::from(n),
            velocity: u8::from(v),
        },
        Ok(wmidi::MidiMessage::NoteOff(c, n, v)) => MidiEvent::NoteOff {
            channel: c.index(),
            note: u8::from(n),
            velocity: u8::from(v),
        },
        _ => MidiEvent::Other,
    }
}

/// The event that MIDI bytes carry, as the harmony session and the router
/// handle them.
pub fn midi_event(bytes: &[u8]) -> (r: MidiEvent)
    ensures
        r == spec_midi_event(bytes@),
{
    parse_midi_event(bytes)
}

/// A Note On message on `channel` (0-15).
pub fn note_on_message(channel: u8, note: u8, velocity: u8) -> (r: Vec<u8>)
    requires
        channel < 16,
        note <= 127,
        velocity <= 127,
    ensures
        r@ == seq![note_on_status(channel), note, velocity],
{
    note_on_bytes(channel, note, velocity)
}

/// A Note Off message on `channel` (0-15).
pub fn note_off_message(channel: u8, note: u8, velocity: u8) -> (r: Vec<u8>)
    requires
        channel < 16,
        note <= 127,
        velocity <= 127,
    ensures
        r@ == seq![note_off_status(channel), note, velocity],
{
    note_off_bytes(channel, note, velocity)
}

} // verus!
