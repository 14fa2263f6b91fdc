//! Per-client session logic: what the server answers to each message, with a
//! harmony engine per client. Reading and writing the socket is left to the
//! caller.

use vstd::prelude::*;

use crate::harmony::config::{HarmonyMode, Key, OctaveMode};
use crate::harmony::engine::{
    after_note_off, after_set_key, after_set_mode, after_set_octave_mode, after_set_voice_count, all_midi,
    note_on_post, spec_release, EngineView, HarmonyEngine,
};
use crate::midi_wire::{
    note_off_bytes, note_off_status, note_on_bytes, note_on_status, parse_midi_event, spec_midi_event, MidiEvent,
};
use crate::server::protocol::{Message, MessageView};

verus! {

/// The octave modes in menu order.
pub open spec fn octave_modes() -> Seq<OctaveMode> {
    seq![OctaveMode::NoShift, OctaveMode::Spread, OctaveMode::BassTrebleSplit, OctaveMode::Mirror]
}

/// The engine after a configure message: each index that names a key,
/// mode or octave mode applies it when it differs from the current one,
/// then the voice count (at least one) is applied when it differs.
pub open spec fn spec_configure(e: EngineView, key: u8, mode: u8, octave_mode: u8, voice_count: u8) -> EngineView {
    let e1 = if key < 12 && Key::spec_all()[key as int] != e.key {
        after_set_key(e, Key::spec_all()[key as int])
    } else {
        e
    };
    let e2 = if mode < 10 && HarmonyMode::spec_all()[mode as int] != e1.mode {
        after_set_mode(e1, HarmonyMode::spec_all()[mode as int])
    } else {
        e1
    };
    let e3 = if octave_mode < 4 && octave_modes()[octave_mode as int] != e2.octave_mode {
        after_set_octave_mode(e2, octave_modes()[octave_mode as int])
    } else {
        e2
    };
    let vc: usize = if voice_count < 1 { 1 } else { voice_count as usize };
    if vc != e3.voice_count {
        after_set_voice_count(e3, vc)
    } else {
        e3
    }
}

/// The engine a new client starts with: key of C, pass-through, four
/// voices.
pub fn new_session_engine() -> (r: HarmonyEngine)
    ensures
        r.wf(),
        r@ == after_set_voice_count(HarmonyEngine::with_voices_view(Key::C, HarmonyMode::PassThrough, 2), 4),
{
    let mut engine = HarmonyEngine::new(Key::C, HarmonyMode::PassThrough);
    engine.set_voice_count(4);
    engine
}

/// Position of an octave mode in menu order.
pub open spec fn octave_index(o: OctaveMode) -> u8 {
    match o {
        OctaveMode::NoShift => 0,
        OctaveMode::Spread => 1,
        OctaveMode::BassTrebleSplit => 2,
        OctaveMode::Mirror => 3,
    }
}

/// The configure message a client sends for its selections: the menu
/// positions of key, mode and octave mode, and the voice count.
pub fn configure_message(key: Key, mode: HarmonyMode, octave_mode: OctaveMode, voice_count: u8) -> (r: Message)
    ensures
        r@ == (MessageView::Configure {
            key: key.spec_semitones(),
            mode: (mode.spec_number() - 1) as u8,
            octave_mode: octave_index(octave_mode),
            voice_count,
        }),
{
    let oct: u8 = match octave_mode {
        OctaveMode::NoShift => 0,
        OctaveMode::Spread => 1,
        OctaveMode::BassTrebleSplit => 2,
        OctaveMode::Mirror => 3,
    };
    Message::Configure { key: key.semitones_from_c(), mode: mode.number() - 1, octave_mode: oct, voice_count }
}

/// Applies a configure message to the engine.
pub fn apply_configure(engine: &mut HarmonyEngine, key: u8, mode: u8, octave_mode: u8, voice_count: u8)
    requires
        old(engine).wf(),
    ensures
        final(engine).wf(),
        final(engine)@ == spec_configure(old(engine)@, key, mode, octave_mode, voice_count),
{
    let keys = Key::all();
    if (key as usize) < keys.len() {
        let new_key = keys[key as usize];
        if new_key != engine.key() {
            engine.set_key(new_key);
        }
    }
    let modes = HarmonyMode::all();
    if (mode as usize) < modes.len() {
        let new_mode = modes[mode as usize];
        if new_mode != engine.mode() {
            engine.set_mode(new_mode);
        }
    }
    let octave_modes = OctaveMode::all();
    if (octave_mode as usize) < octave_modes.len() {
        let new_oct = octave_modes[octave_mode as usize];
        if new_oct != engine.octave_mode() {
            engine.set_octave_mode(new_oct);
        }
    }
    let vc: usize = if voice_count < 1 {
        1
    } else {
        voice_count as usize
    };
    if vc != engine.voice_count() {
        engine.set_voice_count(vc);
    }
}

/// MIDI data messages carrying one three-byte message per note.
pub open spec fn note_frames(notes: Seq<u8>, status: u8, velocity: u8) -> Seq<MessageView> {
    notes.map_values(|n: u8| MessageView::MidiData(seq![status, n, velocity]))
}

/// Views of a list of messages.
pub open spec fn messages_view(v: Seq<Message>) -> Seq<MessageView> {
    v.map_values(|m: Message| m@)
}

/// Wraps each note in a three-byte channel message.
fn frames_for(notes: &Vec<u8>, channel: u8, velocity: u8, on: bool) -> (r: Vec<Message>)
    requires
        channel < 16,
        velocity <= 127,
        all_midi(notes@),
    ensures
        messages_view(r@) == note_frames(
            notes@,
            if on { note_on_status(channel) } else { note_off_status(channel) },
            velocity,
        ),
{
    let ghost status = if on {
        note_on_status(channel)
    } else {
        note_off_status(channel)
    };
    let mut r: Vec<Message> = Vec::new();
    let mut i: usize = 0;
    while i < notes.len()
        invariant
            i <= notes@.len(),
            channel < 16,
            velocity <= 127,
            all_midi(notes@),
            status == (if on { note_on_status(channel) } else { note_off_status(channel) }),
            messages_view(r@) == note_frames(notes@.subrange(0, i as int), status, velocity),
        decreases notes@.len() - i,
    {
        let n = notes[i];
        let bytes = if on {
            note_on_bytes(channel, n, velocity)
        } else {
            note_off_bytes(channel, n, velocity)
        };
        let ghost r0 = r@;
        let msg = Message::MidiData(bytes);
        assert(msg@ == MessageView::MidiData(seq![status, n, velocity]));
        r.push(msg);
        proof {
            assert(notes@.subrange(0, i + 1) =~= notes@.subrange(0, i as int).push(n));
            assert(r@ =~= r0.push(msg));
            assert(messages_view(r@) =~= messages_view(r0).push(msg@));
            assert(note_frames(notes@.subrange(0, i + 1), status, velocity) =~= note_frames(
                notes@.subrange(0, i as int),
                status,
                velocity,
            ).push(MessageView::MidiData(seq![status, n, velocity])));
        }
        i = i + 1;
    }
    assert(notes@.subrange(0, notes@.len() as int) =~= notes@);
    r
}

/// Copies bytes into a vector.
fn bytes_to_vec(bytes: &[u8]) -> (r: Vec<u8>)
    ensures
        r@ == bytes@,
{
    let mut r: Vec<u8> = Vec::new();
    let mut i: usize = 0;
    while i < bytes.len()
        invariant
            i <= bytes@.len(),
            r@ == bytes@.subrange(0, i as int),
        decreases bytes@.len() - i,
    {
        r.push(bytes[i]);
        i = i + 1;
        assert(r@ =~= bytes@.subrange(0, i as int));
    }
    assert(bytes@.subrange(0, bytes@.len() as int) =~= bytes@);
    r
}

/// The answer to MIDI data, and the engine's new state: a Note On is
/// harmonized and each resulting note sent as a Note On with the same
/// channel and velocity; a Note Off (or Note On with velocity zero) sends
/// Note Offs for the notes its Note On produced; anything else is echoed.
pub open spec fn midi_reply(old: EngineView, bytes: Seq<u8>, r: Seq<MessageView>, new: EngineView) -> bool {
    match spec_midi_event(bytes) {
        MidiEvent::NoteOn { channel, note, velocity } => exists|notes: Seq<u8>|
            #[trigger] note_on_post(old, note, notes, new) && r == note_frames(notes, note_on_status(channel), velocity),
        MidiEvent::NoteOff { channel, note, velocity } => {
            &&& new == after_note_off(old, note)
            &&& r == note_frames(spec_release(old.active_notes, note), note_off_status(channel), velocity)
        },
        MidiEvent::Other => r == seq![MessageView::MidiData(bytes)] && new == old,
    }
}

/// Processes MIDI data through the harmony engine and returns the messages
/// to send back.
pub fn process_midi(bytes: &[u8], engine: &mut HarmonyEngine) -> (r: Vec<Message>)
    requires
        old(engine).wf(),
    ensures
        final(engine).wf(),
        midi_reply(old(engine)@, bytes@, messages_view(r@), final(engine)@),
{
    match parse_midi_event(bytes) {
        MidiEvent::NoteOn { channel, note, velocity } => {
            let notes = engine.harmonize_note_on(note);
            frames_for(&notes, channel, velocity, true)
        },
        MidiEvent::NoteOff { channel, note, velocity } => {
            proof {
                engine.lemma_release_midi(note);
            }
            let notes = engine.harmonize_note_off(note);
            frames_for(&notes, channel, velocity, false)
        },
        MidiEvent::Other => {
            let r = vec![Message::MidiData(bytes_to_vec(bytes))];
            assert(messages_view(r@) =~= seq![MessageView::MidiData(bytes@)]);
            r
        },
    }
}

/// What the server does after a client message: the messages to send back
/// and whether the session ends.
pub struct SessionReply {
    pub replies: Vec<Message>,
    pub disconnect: bool,
}

/// The all-notes-off message (controller 123 on channel 1) sent when a
/// session ends.
pub fn all_notes_off() -> (r: Message)
    ensures
        r@ == MessageView::MidiData(seq![0xB0u8, 123u8, 0u8]),
{
    let v = vec![0xB0u8, 123, 0];
    assert(v@ =~= seq![0xB0u8, 123u8, 0u8]);
    Message::MidiData(v)
}

/// Handles one client message: MIDI data is harmonized (see
/// `process_midi`); a configure message updates the engine and is
/// acknowledged; a heartbeat is echoed; a disconnect ends the session; an
/// acknowledgement from the client is ignored.
pub fn session_step(engine: &mut HarmonyEngine, msg: &Message) -> (r: SessionReply)
    requires
        old(engine).wf(),
    ensures
        final(engine).wf(),
        match msg@ {
            MessageView::MidiData(bytes) => !r.disconnect && midi_reply(
                old(engine)@,
                bytes,
                messages_view(r.replies@),
                final(engine)@,
            ),
            MessageView::Configure { key, mode, octave_mode, voice_count } => {
                &&& !r.disconnect
                &&& messages_view(r.replies@) == seq![MessageView::Ack]
                &&& final(engine)@ == spec_configure(old(engine)@, key, mode, octave_mode, voice_count)
            },
            MessageView::Heartbeat => {
                &&& !r.disconnect
                &&& messages_view(r.replies@) == seq![MessageView::Heartbeat]
                &&& final(engine)@ == old(engine)@
            },
            MessageView::Disconnect => {
                &&& r.disconnect
                &&& r.replies@.len() == 0
                &&& final(engine)@ == old(engine)@
            },
            MessageView::Ack => {
                &&& !r.disconnect
                &&& r.replies@.len() == 0
                &&& final(engine)@ == old(engine)@
            },
        },
{
    match msg {
        Message::MidiData(bytes) => SessionReply { replies: process_midi(bytes.as_slice(), engine), disconnect: false },
        Message::Configure { key, mode, octave_mode, voice_count } => {
            apply_configure(engine, *key, *mode, *octave_mode, *voice_count);
            let replies = vec![Message::Ack];
            assert(messages_view(replies@) =~= seq![MessageView::Ack]);
            SessionReply { replies, disconnect: false }
        },
        Message::Heartbeat => {
            let replies = vec![Message::Heartbeat];
            assert(messages_view(replies@) =~= seq![MessageView::Heartbeat]);
            SessionReply { replies, disconnect: false }
        },
        Message::Disconnect => SessionReply { replies: Vec::new(), disconnect: true },
        Message::Ack => SessionReply { replies: Vec::new(), disconnect: false },
    }
}

/// A client's configuration reaches the server's engine: applying the
/// configure message built from a key, a mode, an octave mode and a voice
/// count leaves the engine with exactly those (the voice count at least
/// one), whatever it had before.
pub proof fn lemma_configure_reaches_engine(
    e: EngineView,
    key: Key,
    mode: HarmonyMode,
    octave_mode: OctaveMode,
    voice_count: u8,
)
    ensures
        ({
            let c = spec_configure(
                e,
                key.spec_semitones(),
                (mode.spec_number() - 1) as u8,
                octave_index(octave_mode),
                voice_count,
            );
            &&& c.key == key
            &&& c.mode == mode
            &&& c.octave_mode == octave_mode
            &&& c.voice_count == if voice_count < 1 {
                1
            } else {
                voice_count as nat
            }
        }),
{
    assert(Key::spec_all()[key.spec_semitones() as int] == key);
    assert(HarmonyMode::spec_all()[mode.spec_number() - 1] == mode);
    assert(octave_modes()[octave_index(octave_mode) as int] == octave_mode);
}

} // verus!
