use contrapunk::server::session::new_session_engine;
use contrapunk::server::session::configure_message;
use contrapunk::harmony::config::{HarmonyMode, Key, OctaveMode};
use contrapunk::harmony::engine::HarmonyEngine;
use contrapunk::server::protocol::Message;
use contrapunk::server::session::{all_notes_off, apply_configure, process_midi, session_step};

#[test]
fn note_on_is_harmonized_on_the_same_channel() {
    let mut engine = HarmonyEngine::new(Key::C, HarmonyMode::DiatonicThirds);
    let out = process_midi(&[0x92, 60, 90], &mut engine);
    assert_eq!(out, vec![Message::MidiData(vec![0x92, 60, 90]), Message::MidiData(vec![0x92, 64, 90])]);
    let off = process_midi(&[0x82, 60, 10], &mut engine);
    assert_eq!(off, vec![Message::MidiData(vec![0x82, 60, 10]), Message::MidiData(vec![0x82, 64, 10])]);
}

#[test]
fn zero_velocity_note_on_releases() {
    let mut engine = HarmonyEngine::new(Key::C, HarmonyMode::DiatonicThirds);
    process_midi(&[0x90, 60, 100], &mut engine);
    let off = process_midi(&[0x90, 60, 0], &mut engine);
    assert_eq!(off, vec![Message::MidiData(vec![0x80, 60, 0]), Message::MidiData(vec![0x80, 64, 0])]);
}

#[test]
fn other_midi_is_echoed() {
    let mut engine = HarmonyEngine::new(Key::C, HarmonyMode::DiatonicThirds);
    assert_eq!(process_midi(&[0xB0, 7, 100], &mut engine), vec![Message::MidiData(vec![0xB0, 7, 100])]);
    assert_eq!(process_midi(&[0x90, 200], &mut engine), vec![Message::MidiData(vec![0x90, 200])]);
}

#[test]
fn configure_applies_and_acknowledges() {
    let mut engine = HarmonyEngine::new(Key::C, HarmonyMode::DiatonicThirds);
    let reply = session_step(&mut engine, &Message::Configure { key: 7, mode: 2, octave_mode: 3, voice_count: 0 });
    assert!(!reply.disconnect);
    assert_eq!(reply.replies, vec![Message::Ack]);
    assert_eq!(engine.key(), Key::G);
    assert_eq!(engine.mode(), HarmonyMode::DiatonicFourths);
    assert_eq!(engine.octave_mode(), OctaveMode::Mirror);
    assert_eq!(engine.voice_count(), 1);
}

#[test]
fn configure_ignores_out_of_range_indices() {
    let mut engine = HarmonyEngine::new(Key::C, HarmonyMode::DiatonicThirds);
    apply_configure(&mut engine, 40, 40, 40, 3);
    assert_eq!(engine.key(), Key::C);
    assert_eq!(engine.mode(), HarmonyMode::DiatonicThirds);
    assert_eq!(engine.octave_mode(), OctaveMode::NoShift);
    assert_eq!(engine.voice_count(), 3);
}

#[test]
fn heartbeat_ack_and_disconnect() {
    let mut engine = HarmonyEngine::new(Key::C, HarmonyMode::PassThrough);
    let r = session_step(&mut engine, &Message::Heartbeat);
    assert_eq!(r.replies, vec![Message::Heartbeat]);
    assert!(!r.disconnect);
    let r = session_step(&mut engine, &Message::Ack);
    assert!(r.replies.is_empty());
    assert!(!r.disconnect);
    let r = session_step(&mut engine, &Message::Disconnect);
    assert!(r.replies.is_empty());
    assert!(r.disconnect);
}

#[test]
fn session_midi_goes_through_the_engine() {
    let mut engine = HarmonyEngine::new(Key::C, HarmonyMode::PassThrough);
    let r = session_step(&mut engine, &Message::MidiData(vec![0x90, 62, 80]));
    assert_eq!(r.replies, vec![Message::MidiData(vec![0x90, 62, 80])]);
}

#[test]
fn all_notes_off_message() {
    assert_eq!(all_notes_off(), Message::MidiData(vec![0xB0, 123, 0]));
}

#[test]
fn client_configuration_reaches_the_engine() {
    let msg = configure_message(Key::A, HarmonyMode::ContraryMotion, OctaveMode::BassTrebleSplit, 3);
    assert_eq!(msg, Message::Configure { key: 9, mode: 5, octave_mode: 2, voice_count: 3 });
    let mut engine = HarmonyEngine::new(Key::C, HarmonyMode::PassThrough);
    session_step(&mut engine, &msg);
    assert_eq!(engine.key(), Key::A);
    assert_eq!(engine.mode(), HarmonyMode::ContraryMotion);
    assert_eq!(engine.octave_mode(), OctaveMode::BassTrebleSplit);
    assert_eq!(engine.voice_count(), 3);
}

#[test]
fn new_session_engine_defaults() {
    let engine = new_session_engine();
    assert_eq!(engine.key(), Key::C);
    assert_eq!(engine.mode(), HarmonyMode::PassThrough);
    assert_eq!(engine.voice_count(), 4);
}

#[test]
fn menu_choices() {
    assert_eq!(Key::from_index(11), Some(Key::B));
    assert_eq!(Key::from_index(12), None);
    assert_eq!(HarmonyMode::from_number(3), Some(HarmonyMode::DiatonicFourths));
    assert_eq!(HarmonyMode::from_number(0), None);
    assert_eq!(HarmonyMode::from_number(11), None);
    assert_eq!(OctaveMode::from_number(1), Some(OctaveMode::Spread));
    assert_eq!(OctaveMode::from_number(4), None);
}
