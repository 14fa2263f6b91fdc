use contrapunk::midi_defaults::{
    apply_midi_defaults, build_midi_defaults, MidiDefaults, MidiPortState, INPUT_COMPUTER_KEYBOARD,
    INPUT_NOTE_GENERATOR, VIRTUAL_COMPUTER_KEYBOARD, VIRTUAL_NOTE_GENERATOR,
};

fn state() -> MidiPortState {
    MidiPortState {
        input_port: Some(1),
        available_inputs: vec![(0, "Keystation".to_string()), (1, "Launchkey".to_string())],
        output_slots: vec![Some(2), None, Some(9)],
        available_outputs: vec![(2, "IAC Bus".to_string()), (3, "Synth".to_string())],
    }
}

#[test]
fn build_saves_device_names() {
    let d = build_midi_defaults(&state());
    assert_eq!(d.input_name, Some("Launchkey".to_string()));
    assert_eq!(d.output_names, vec![Some("IAC Bus".to_string()), None, None]);
}

#[test]
fn build_saves_virtual_inputs_by_reserved_name() {
    let mut s = state();
    s.input_port = Some(INPUT_NOTE_GENERATOR);
    assert_eq!(build_midi_defaults(&s).input_name, Some(VIRTUAL_NOTE_GENERATOR.to_string()));
    s.input_port = Some(INPUT_COMPUTER_KEYBOARD);
    assert_eq!(build_midi_defaults(&s).input_name, Some(VIRTUAL_COMPUTER_KEYBOARD.to_string()));
    s.input_port = None;
    assert_eq!(build_midi_defaults(&s).input_name, None);
}

#[test]
fn apply_resolves_names_to_current_indices() {
    let mut s = state();
    let d = MidiDefaults {
        input_name: Some("Keystation".to_string()),
        output_names: vec![Some("Synth".to_string()), Some("Gone".to_string())],
    };
    apply_midi_defaults(&mut s, &d);
    assert_eq!(s.input_port, Some(0));
    assert_eq!(s.output_slots, vec![Some(3), None, Some(9)]);
}

#[test]
fn apply_unknown_input_selects_nothing() {
    let mut s = state();
    let d = MidiDefaults { input_name: Some("Unplugged".to_string()), output_names: vec![] };
    apply_midi_defaults(&mut s, &d);
    assert_eq!(s.input_port, None);
    assert_eq!(s.output_slots, vec![Some(2), None, Some(9)]);
}

#[test]
fn save_then_restore_round_trips() {
    let original = state();
    let d = build_midi_defaults(&original);
    let mut restored = state();
    restored.input_port = None;
    restored.output_slots = vec![None, Some(3), None];
    apply_midi_defaults(&mut restored, &d);
    assert_eq!(restored.input_port, Some(1));
    assert_eq!(restored.output_slots, vec![Some(2), None, None]);
}

#[test]
fn apply_restores_virtual_inputs() {
    let mut s = state();
    let d = MidiDefaults { input_name: Some(VIRTUAL_COMPUTER_KEYBOARD.to_string()), output_names: vec![] };
    apply_midi_defaults(&mut s, &d);
    assert_eq!(s.input_port, Some(INPUT_COMPUTER_KEYBOARD));
}
