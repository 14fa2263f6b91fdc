//! MIDI device selections saved across restarts: device names instead of
//! port indices, since indices change when devices come and go. The two
//! virtual inputs are saved under reserved names.

use vstd::prelude::*;

verus! {

/// Port index of the Note Generator virtual input.
pub const INPUT_NOTE_GENERATOR: usize = usize::MAX;

/// Port index of the Computer Keyboard virtual input.
pub const INPUT_COMPUTER_KEYBOARD: usize = usize::MAX - 1;

/// Saved name of the Note Generator virtual input.
pub const VIRTUAL_NOTE_GENERATOR: &'static str = "__virtual:note_generator";

/// Saved name of the Computer Keyboard virtual input.
pub const VIRTUAL_COMPUTER_KEYBOARD: &'static str = "__virtual:computer_keyboard";

/// Saved MIDI device selections.
pub struct MidiDefaults {
    /// Saved input device name (or a virtual input's reserved name).
    pub input_name: Option<String>,
    /// Saved output device names per slot (`None` = unassigned).
    pub output_names: Vec<Option<String>>,
}

/// The device selection of the application: the selected input port, the
/// output port of each slot, and the devices present as (index, name).
pub struct MidiPortState {
    pub input_port: Option<usize>,
    pub available_inputs: Vec<(usize, String)>,
    pub output_slots: Vec<Option<usize>>,
    pub available_outputs: Vec<(usize, String)>,
}

/// The text of an optional name.
pub open spec fn opt_text(o: Option<String>) -> Option<Seq<char>> {
    match o {
        Some(s) => Some(s@),
        None => None,
    }
}

/// Name of the first listed device with index `idx`.
pub open spec fn port_name(ports: Seq<(usize, String)>, idx: usize) -> Option<Seq<char>>
    decreases ports.len(),
{
    if ports.len() == 0 {
        None
    } else if ports[0].0 == idx {
        Some(ports[0].1@)
    } else {
        port_name(ports.drop_first(), idx)
    }
}

/// Index of the first listed device named `name`.
pub open spec fn port_index(ports: Seq<(usize, String)>, name: Seq<char>) -> Option<usize>
    decreases ports.len(),
{
    if ports.len() == 0 {
        None
    } else if ports[0].1@ == name {
        Some(ports[0].0)
    } else {
        port_index(ports.drop_first(), name)
    }
}

/// The name saved for a selected port.
pub open spec fn slot_name(slot: Option<usize>, ports: Seq<(usize, String)>) -> Option<Seq<char>> {
    match slot {
        Some(idx) => port_name(ports, idx),
        None => None,
    }
}

/// The name saved for the input selection: a virtual input's reserved
/// name, or the device's name.
pub open spec fn input_name(port: Option<usize>, inputs: Seq<(usize, String)>) -> Option<Seq<char>> {
    match port {
        Some(idx) => if idx == INPUT_NOTE_GENERATOR {
            Some(VIRTUAL_NOTE_GENERATOR@)
        } else if idx == INPUT_COMPUTER_KEYBOARD {
            Some(VIRTUAL_COMPUTER_KEYBOARD@)
        } else {
            port_name(inputs, idx)
        },
        None => None,
    }
}

/// The port a saved name resolves to among `ports`.
pub open spec fn resolve_name(name: Option<Seq<char>>, ports: Seq<(usize, String)>) -> Option<usize> {
    match name {
        Some(n) => port_index(ports, n),
        None => None,
    }
}

/// The input port a saved input name resolves to: the reserved names
/// select the virtual inputs, other names the first device so named.
pub open spec fn resolve_input(name: Option<Seq<char>>, inputs: Seq<(usize, String)>) -> Option<usize> {
    match name {
        Some(n) => if n == VIRTUAL_NOTE_GENERATOR@ {
            Some(INPUT_NOTE_GENERATOR)
        } else if n == VIRTUAL_COMPUTER_KEYBOARD@ {
            Some(INPUT_COMPUTER_KEYBOARD)
        } else {
            port_index(inputs, n)
        },
        None => None,
    }
}

/// The name of the first listed device with index `idx`.
fn find_name(ports: &Vec<(usize, String)>, idx: usize) -> (r: Option<String>)
    ensures
        opt_text(r) == port_name(ports@, idx),
{
    let mut i: usize = 0;
    assert(ports@.subrange(0, ports@.len() as int) =~= ports@);
    while i < ports.len()
        invariant
            i <= ports@.len(),
            port_name(ports@, idx) == port_name(ports@.subrange(i as int, ports@.len() as int), idx),
        decreases ports@.len() - i,
    {
        let ghost rest = ports@.subrange(i as int, ports@.len() as int);
        assert(rest.drop_first() =~= ports@.subrange(i + 1, ports@.len() as int));
        if ports[i].0 == idx {
            return Some(ports[i].1.clone());
        }
        i = i + 1;
    }
    None
}

/// The index of the first listed device named `name`.
fn find_index(ports: &Vec<(usize, String)>, name: &String) -> (r: Option<usize>)
    ensures
        r == port_index(ports@, name@),
{
    let mut i: usize = 0;
    assert(ports@.subrange(0, ports@.len() as int) =~= ports@);
    while i < ports.len()
        invariant
            i <= ports@.len(),
            port_index(ports@, name@) == port_index(ports@.subrange(i as int, ports@.len() as int), name@),
        decreases ports@.len() - i,
    {
        let ghost rest = ports@.subrange(i as int, ports@.len() as int);
        assert(rest.drop_first() =~= ports@.subrange(i + 1, ports@.len() as int));
        if ports[i].1 == *name {
            return Some(ports[i].0);
        }
        i = i + 1;
    }
    None
}

/// The selections of `state` as device names.
/// `d` is what saving `state` gives: the input's name (or a virtual
/// input's reserved name) and each output slot's device name.
pub open spec fn saves(state: MidiPortState, d: MidiDefaults) -> bool {
    &&& opt_text(d.input_name) == input_name(state.input_port, state.available_inputs@)
    &&& d.output_names@.len() == state.output_slots@.len()
    &&& forall|i: int|
        0 <= i < d.output_names@.len() ==> opt_text(#[trigger] d.output_names@[i]) == slot_name(
            state.output_slots@[i],
            state.available_outputs@,
        )
}

/// `after` is `before` with `d` applied: the input and each saved output
/// slot resolved by name among the present devices, the devices and the
/// slots beyond the saved ones unchanged.
pub open spec fn restores(before: MidiPortState, d: MidiDefaults, after: MidiPortState) -> bool {
    &&& after.input_port == resolve_input(opt_text(d.input_name), before.available_inputs@)
    &&& after.available_inputs@ == before.available_inputs@
    &&& after.available_outputs@ == before.available_outputs@
    &&& after.output_slots@.len() == before.output_slots@.len()
    &&& forall|i: int|
        0 <= i < before.output_slots@.len() ==> #[trigger] after.output_slots@[i] == if i
            < d.output_names@.len() {
            resolve_name(opt_text(d.output_names@[i]), before.available_outputs@)
        } else {
            before.output_slots@[i]
        }
}

pub fn build_midi_defaults(state: &MidiPortState) -> (r: MidiDefaults)
    ensures
        saves(*state, r),
{
    let input_name = match state.input_port {
        Some(idx) => if idx == INPUT_NOTE_GENERATOR {
            Some(VIRTUAL_NOTE_GENERATOR.to_owned())
        } else if idx == INPUT_COMPUTER_KEYBOARD {
            Some(VIRTUAL_COMPUTER_KEYBOARD.to_owned())
        } else {
            find_name(&state.available_inputs, idx)
        },
        None => None,
    };
    let mut output_names: Vec<Option<String>> = Vec::new();
    let mut i: usize = 0;
    while i < state.output_slots.len()
        invariant
            i <= state.output_slots@.len(),
            output_names@.len() == i,
            forall|j: int|
                0 <= j < i ==> opt_text(#[trigger] output_names@[j]) == slot_name(
                    state.output_slots@[j],
                    state.available_outputs@,
                ),
        decreases state.output_slots@.len() - i,
    {
        let name = match state.output_slots[i] {
            Some(idx) => find_name(&state.available_outputs, idx),
            None => None,
        };
        output_names.push(name);
        i = i + 1;
    }
    MidiDefaults { input_name, output_names }
}

/// Selects the saved devices in `state` by name; a name that matches no
/// present device selects nothing. Slots beyond the saved ones keep their
/// selection.
pub fn apply_midi_defaults(state: &mut MidiPortState, defaults: &MidiDefaults)
    ensures
        restores(*old(state), *defaults, *final(state)),
{
    let input = match &defaults.input_name {
        Some(name) => {
            let note_generator = VIRTUAL_NOTE_GENERATOR.to_owned();
            let keyboard = VIRTUAL_COMPUTER_KEYBOARD.to_owned();
            if *name == note_generator {
                Some(INPUT_NOTE_GENERATOR)
            } else if *name == keyboard {
                Some(INPUT_COMPUTER_KEYBOARD)
            } else {
                find_index(&state.available_inputs, name)
            }
        },
        None => None,
    };
    state.input_port = input;
    let mut i: usize = 0;
    while i < state.output_slots.len() && i < defaults.output_names.len()
        invariant
            i <= state.output_slots@.len(),
            i <= defaults.output_names@.len(),
            state.output_slots@.len() == old(state).output_slots@.len(),
            state.available_outputs@ == old(state).available_outputs@,
            state.available_inputs@ == old(state).available_inputs@,
            state.input_port == input,
            forall|j: int|
                0 <= j < old(state).output_slots@.len() ==> #[trigger] state.output_slots@[j] == if j < i {
                    resolve_name(opt_text(defaults.output_names@[j]), old(state).available_outputs@)
                } else {
                    old(state).output_slots@[j]
                },
        decreases state.output_slots@.len() - i,
    {
        let resolved = match &defaults.output_names[i] {
            Some(name) => find_index(&state.available_outputs, name),
            None => None,
        };
        state.output_slots.set(i, resolved);
        i = i + 1;
    }
}

/// No two listed devices share a name.
pub open spec fn names_distinct(ports: Seq<(usize, String)>) -> bool {
    forall|i: int, j: int| 0 <= i < j < ports.len() ==> ports[i].1@ != ports[j].1@
}

/// No listed device carries a virtual input's reserved name.
pub open spec fn reserved_free(ports: Seq<(usize, String)>) -> bool {
    forall|i: int| 0 <= i < ports.len() ==> #[trigger] ports[i].1@ != VIRTUAL_NOTE_GENERATOR@
        && ports[i].1@ != VIRTUAL_COMPUTER_KEYBOARD@
}

/// Some listed device has index `idx`.
pub open spec fn listed(ports: Seq<(usize, String)>, idx: usize) -> bool {
    exists|k: int| 0 <= k < ports.len() && #[trigger] ports[k].0 == idx
}

/// The name found for an index is that of a listed device with the index;
/// none is found only when no device has it.
proof fn lemma_port_name_found(ports: Seq<(usize, String)>, idx: usize)
    ensures
        port_name(ports, idx) is None <==> !listed(ports, idx),
        port_name(ports, idx) matches Some(n) ==> exists|k: int|
            0 <= k < ports.len() && #[trigger] ports[k].0 == idx && ports[k].1@ == n,
    decreases ports.len(),
{
    if ports.len() > 0 {
        let tail = ports.drop_first();
        lemma_port_name_found(tail, idx);
        if ports[0].0 != idx {
            if listed(ports, idx) {
                let k = choose|k: int| 0 <= k < ports.len() && #[trigger] ports[k].0 == idx;
                assert(tail[k - 1].0 == idx);
            }
            if listed(tail, idx) {
                let k = choose|k: int| 0 <= k < tail.len() && #[trigger] tail[k].0 == idx;
                assert(ports[k + 1].0 == idx);
            }
            if port_name(ports, idx) is Some {
                let n = port_name(ports, idx)->0;
                let k = choose|k: int| 0 <= k < tail.len() && #[trigger] tail[k].0 == idx && tail[k].1@ == n;
                assert(ports[k + 1].0 == idx && ports[k + 1].1@ == n);
            }
        }
    }
}

/// With distinct names, a listed device's name resolves to its index.
proof fn lemma_port_index_of(ports: Seq<(usize, String)>, k: int)
    requires
        names_distinct(ports),
        0 <= k < ports.len(),
    ensures
        port_index(ports, ports[k].1@) == Some(ports[k].0),
    decreases ports.len(),
{
    if k > 0 {
        let tail = ports.drop_first();
        assert(ports[0].1@ != ports[k].1@);
        assert(names_distinct(tail)) by {
            assert forall|i: int, j: int| 0 <= i < j < tail.len() implies tail[i].1@ != tail[j].1@ by {
                assert(ports[i + 1].1@ != ports[j + 1].1@);
            }
        }
        lemma_port_index_of(tail, k - 1);
    }
}

/// Saving an output slot's device by name and restoring it among the same
/// devices, whose names are distinct, selects the same device; a device
/// that is not listed is not selected.
pub proof fn lemma_restore_output(slot: Option<usize>, outputs: Seq<(usize, String)>)
    requires
        names_distinct(outputs),
    ensures
        resolve_name(slot_name(slot, outputs), outputs) == match slot {
            Some(idx) => if listed(outputs, idx) {
                Some(idx)
            } else {
                None::<usize>
            },
            None => None,
        },
{
    if let Some(idx) = slot {
        lemma_port_name_found(outputs, idx);
        if let Some(n) = port_name(outputs, idx) {
            let k = choose|k: int| 0 <= k < outputs.len() && #[trigger] outputs[k].0 == idx && outputs[k].1@ == n;
            lemma_port_index_of(outputs, k);
        }
    }
}

/// Saving the input selection and restoring it among the same devices,
/// whose names are distinct and not reserved, selects the same input:
/// the virtual inputs always, a device when it is listed.
pub proof fn lemma_restore_input(port: Option<usize>, inputs: Seq<(usize, String)>)
    requires
        names_distinct(inputs),
        reserved_free(inputs),
    ensures
        resolve_input(input_name(port, inputs), inputs) == match port {
            Some(idx) => if idx == INPUT_NOTE_GENERATOR || idx == INPUT_COMPUTER_KEYBOARD || listed(inputs, idx) {
                Some(idx)
            } else {
                None::<usize>
            },
            None => None,
        },
{
    reveal_strlit("__virtual:note_generator");
    reveal_strlit("__virtual:computer_keyboard");
    assert(VIRTUAL_NOTE_GENERATOR@.len() != VIRTUAL_COMPUTER_KEYBOARD@.len());
    if let Some(idx) = port {
        if idx != INPUT_NOTE_GENERATOR && idx != INPUT_COMPUTER_KEYBOARD {
            lemma_port_name_found(inputs, idx);
            if let Some(n) = port_name(inputs, idx) {
                let k = choose|k: int| 0 <= k < inputs.len() && #[trigger] inputs[k].0 == idx && inputs[k].1@ == n;
                assert(inputs[k].1@ != VIRTUAL_NOTE_GENERATOR@);
                lemma_port_index_of(inputs, k);
            }
        }
    }
}

/// Saving a selection and applying the saved defaults among the same
/// devices (distinct names, none reserved) gives the same selection back,
/// except that a port no longer listed is dropped; output slots that were
/// not saved keep their value.
pub proof fn lemma_apply_restores_build(
    saved: MidiPortState,
    d: MidiDefaults,
    before: MidiPortState,
    after: MidiPortState,
)
    requires
        names_distinct(saved.available_inputs@),
        reserved_free(saved.available_inputs@),
        names_distinct(saved.available_outputs@),
        before.available_inputs@ == saved.available_inputs@,
        before.available_outputs@ == saved.available_outputs@,
        saves(saved, d),
        restores(before, d, after),
    ensures
        after.input_port == match saved.input_port {
            Some(idx) => if idx == INPUT_NOTE_GENERATOR || idx == INPUT_COMPUTER_KEYBOARD || listed(
                saved.available_inputs@,
                idx,
            ) {
                Some(idx)
            } else {
                None::<usize>
            },
            None => None,
        },
        forall|i: int|
            0 <= i < before.output_slots@.len() ==> #[trigger] after.output_slots@[i] == if i
                < saved.output_slots@.len() {
                match saved.output_slots@[i] {
                    Some(idx) => if listed(saved.available_outputs@, idx) {
                        Some(idx)
                    } else {
                        None::<usize>
                    },
                    None => None,
                }
            } else {
                before.output_slots@[i]
            },
{
    lemma_restore_input(saved.input_port, saved.available_inputs@);
    assert forall|i: int| 0 <= i < before.output_slots@.len() && i < saved.output_slots@.len() implies
        #[trigger] after.output_slots@[i] == match saved.output_slots@[i] {
            Some(idx) => if listed(saved.available_outputs@, idx) {
                Some(idx)
            } else {
                None::<usize>
            },
            None => None,
        } by {
        lemma_restore_output(saved.output_slots@[i], saved.available_outputs@);
        assert(opt_text(d.output_names@[i]) == slot_name(saved.output_slots@[i], saved.available_outputs@));
    }
}

} // verus!
