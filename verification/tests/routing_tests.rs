use contrapunk::synth::voice::{choose_voice, VoiceSlot};
use contrapunk::midi_wire::{midi_event, note_off_message, note_on_message, MidiEvent};
use contrapunk::harmony::config::Key;
use contrapunk::harmony::key_detect::key_from_semitones;
use contrapunk::humanize::config::{default_accent_pattern, AccentLevel};
use contrapunk::midi::ports::{
    check_input_ports, check_output_choice, check_output_ports, input_choice, OutputChoice, PortsError,
};
use contrapunk::router::{plan_deliveries, Delivery};

#[test]
fn deliveries_follow_the_port_map_and_skip_closed_ports() {
    let d = plan_deliveries(&[60, 64, 67], &[1, 0, 5], 2);
    assert_eq!(
        d,
        vec![Delivery { voice: 0, port: 1, note: 60 }, Delivery { voice: 1, port: 0, note: 64 }]
    );
}

#[test]
fn voices_past_the_port_map_use_their_own_number() {
    let d = plan_deliveries(&[60, 64, 67], &[], 3);
    assert_eq!(
        d,
        vec![
            Delivery { voice: 0, port: 0, note: 60 },
            Delivery { voice: 1, port: 1, note: 64 },
            Delivery { voice: 2, port: 2, note: 67 },
        ]
    );
    assert!(plan_deliveries(&[60], &[], 0).is_empty());
}

#[test]
fn port_availability() {
    assert_eq!(check_input_ports(0), Err(PortsError::NoInputPorts));
    assert_eq!(check_input_ports(2), Ok(()));
    assert_eq!(check_output_ports(0, 1), Err(PortsError::NoOutputPorts));
    assert_eq!(check_output_ports(2, 3), Err(PortsError::TooFewOutputPorts { min: 3, available: 2 }));
    assert_eq!(check_output_ports(3, 3), Ok(()));
}

#[test]
fn input_choice_must_name_a_port() {
    assert_eq!(input_choice(Some(1), 2), Some(1));
    assert_eq!(input_choice(Some(2), 2), None);
    assert_eq!(input_choice(None, 2), None);
}

#[test]
fn output_choice_verdicts() {
    assert_eq!(check_output_choice(&[0, 2], 4, 1, 4), OutputChoice::Accepted);
    assert_eq!(check_output_choice(&[], 4, 1, 4), OutputChoice::WrongCount { selected: 0 });
    assert_eq!(check_output_choice(&[0, 1, 2], 4, 1, 2), OutputChoice::WrongCount { selected: 3 });
    assert_eq!(check_output_choice(&[0, 4], 4, 1, 4), OutputChoice::OutOfRange);
    assert_eq!(check_output_choice(&[3, 1, 3], 4, 1, 4), OutputChoice::Duplicates);
    assert_eq!(check_output_choice(&[3, 9, 3], 4, 1, 4), OutputChoice::OutOfRange);
}

#[test]
fn keys_from_pitch_classes() {
    assert_eq!(key_from_semitones(0), Key::C);
    assert_eq!(key_from_semitones(7), Key::G);
    assert_eq!(key_from_semitones(23), Key::B);
    for k in Key::all() {
        assert_eq!(key_from_semitones(k.semitones_from_c()), *k);
    }
}

#[test]
fn default_accents() {
    assert_eq!(
        default_accent_pattern(),
        vec![AccentLevel::Accent, AccentLevel::Normal, AccentLevel::Normal, AccentLevel::Normal]
    );
}

#[test]
fn midi_messages_and_events() {
    assert_eq!(note_on_message(3, 60, 100), vec![0x93, 60, 100]);
    assert_eq!(note_off_message(0, 61, 0), vec![0x80, 61, 0]);
    assert_eq!(midi_event(&[0x93, 60, 100]), MidiEvent::NoteOn { channel: 3, note: 60, velocity: 100 });
    assert_eq!(midi_event(&[0x93, 60, 0]), MidiEvent::NoteOff { channel: 3, note: 60, velocity: 0 });
    assert_eq!(midi_event(&[0xB0, 1, 2]), MidiEvent::Other);
    assert_eq!(midi_event(&[0x90, 200, 2]), MidiEvent::Other);
}

#[test]
fn voice_allocation() {
    let idle = VoiceSlot { active: false, note: 0, releasing: false, age: 0 };
    let held = |note: u8, age: u64| VoiceSlot { active: true, note, releasing: false, age };
    let releasing = |note: u8, age: u64| VoiceSlot { active: true, note, releasing: true, age };
    assert_eq!(choose_voice(&[held(60, 1), idle, held(64, 2)], 64), 2);
    assert_eq!(choose_voice(&[held(60, 1), idle, releasing(64, 2)], 64), 1);
    assert_eq!(choose_voice(&[held(60, 5), held(62, 3), held(64, 3)], 70), 1);
    assert!(held(60, 1).holds(60));
    assert!(!releasing(60, 1).holds(60));
    assert!(!idle.holds(0));
}
