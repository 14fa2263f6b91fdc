//! The harmony engine: routes notes through the selected mode's algorithm,
//! chains harmony voices outward from the user's voice position, applies
//! voice leading and octave transformations, and pairs each Note-Off with
//! the notes its Note-On produced.

use vstd::prelude::*;

use std::collections::HashMap;

use crate::harmony::config::{HarmonyMode, Key, OctaveMode, ScaleMode};
use crate::harmony::modes;
use crate::harmony::modes::{
    is_voice_pair, random_below_degrees, random_below_no_seconds_degrees, spec_harmony_step,
};
use crate::harmony::scale::{in_scale, spec_transpose_diatonic, Scale, ScaleView, MIDI_MAX};
use crate::harmony::stateful::{
    contrary_initial, contrary_step, counterpoint_initial, counterpoint_step, ContraryMotionState,
    ContraryView, CounterpointState, CounterpointView,
};
use crate::harmony::voice_leading::styles::{spec_rules_for, StyleRules, VoiceLeadingStyle};
use crate::harmony::voice_leading::voicer::{revoice_chord, spec_revoiced, VoiceAnchor, VoiceRegister};

verus! {

broadcast use vstd::std_specs::hash::group_hash_axioms;

// ---------------------------------------------------------------------------
// Voice arrangement
// ---------------------------------------------------------------------------

/// Register of arrangement position `i` (0 = top) among `n` voices: SATB for
/// up to four voices (two voices are soprano and bass, three drop the tenor);
/// for more, the positions are split evenly into quarters.
pub open spec fn arrangement_register(n: int, i: int) -> VoiceRegister {
    if n <= 4 {
        if i == 0 {
            VoiceRegister::Soprano
        } else if i == 1 {
            if n == 2 {
                VoiceRegister::Bass
            } else {
                VoiceRegister::Alto
            }
        } else if i == 2 {
            if n == 3 {
                VoiceRegister::Bass
            } else {
                VoiceRegister::Tenor
            }
        } else {
            VoiceRegister::Bass
        }
    } else if 4 * i < n - 1 {
        VoiceRegister::Soprano
    } else if 2 * i < n - 1 {
        VoiceRegister::Alto
    } else if 4 * i < 3 * (n - 1) {
        VoiceRegister::Tenor
    } else {
        VoiceRegister::Bass
    }
}

/// Arrangement positions outward from `vp`, starting at distance `j`: the
/// one above, then the one below, at each distance.
pub open spec fn outward_from(n: int, vp: int, j: int) -> Seq<int>
    decreases n - j,
{
    if j <= 0 || (vp - j < 0 && vp + j >= n) || n - j <= 0 {
        Seq::empty()
    } else {
        (if vp - j >= 0 { seq![vp - j] } else { Seq::empty() }) + (if vp + j < n {
            seq![vp + j]
        } else {
            Seq::empty()
        }) + outward_from(n, vp, j + 1)
    }
}

/// The output order of `n` voices with the user at `vp`: the user first,
/// then the other positions closest first, above before below.
pub open spec fn voice_order(n: int, vp: int) -> Seq<int> {
    seq![vp] + outward_from(n, vp, 1)
}

/// Registers of the voices in output order (a single voice is a soprano).
pub open spec fn spec_registers(n: int, vp: int) -> Seq<VoiceRegister> {
    if n <= 1 {
        seq![VoiceRegister::Soprano]
    } else {
        let p = if vp < n - 1 { vp } else { n - 1 };
        voice_order(n, p).map_values(|i: int| arrangement_register(n, i))
    }
}

/// Exec form of `arrangement_register`.
fn arrangement_reg(n: usize, i: usize) -> (r: VoiceRegister)
    requires
        n >= 2,
        i < n,
    ensures
        r == arrangement_register(n as int, i as int),
{
    if n <= 4 {
        if i == 0 {
            VoiceRegister::Soprano
        } else if i == 1 {
            if n == 2 {
                VoiceRegister::Bass
            } else {
                VoiceRegister::Alto
            }
        } else if i == 2 {
            if n == 3 {
                VoiceRegister::Bass
            } else {
                VoiceRegister::Tenor
            }
        } else {
            VoiceRegister::Bass
        }
    } else {
        let i = i as u128;
        let m = (n - 1) as u128;
        if 4 * i < m {
            VoiceRegister::Soprano
        } else if 2 * i < m {
            VoiceRegister::Alto
        } else if 4 * i < 3 * m {
            VoiceRegister::Tenor
        } else {
            VoiceRegister::Bass
        }
    }
}

/// Unfolds `outward_from` one distance.
proof fn lemma_outward_step(n: int, vp: int, j: int)
    requires
        0 <= vp < n,
        1 <= j,
    ensures
        outward_from(n, vp, j) == (if vp - j < 0 && vp + j >= n {
            Seq::<int>::empty()
        } else {
            (if vp - j >= 0 { seq![vp - j] } else { Seq::<int>::empty() }) + (if vp + j < n {
                seq![vp + j]
            } else {
                Seq::<int>::empty()
            }) + outward_from(n, vp, j + 1)
        }),
        j >= n ==> outward_from(n, vp, j) == Seq::<int>::empty(),
{
}

/// Number of positions at distance `j` or more from `vp`.
proof fn lemma_outward_len(n: int, vp: int, j: int)
    requires
        0 <= vp < n,
        1 <= j,
    ensures
        outward_from(n, vp, j).len() == (if vp - j + 1 > 0 { vp - j + 1 } else { 0 }) + (if n - vp - j > 0 {
            n - vp - j
        } else {
            0
        }),
    decreases n - j,
{
    if !((vp - j < 0 && vp + j >= n) || n - j <= 0) {
        lemma_outward_len(n, vp, j + 1);
    }
}

/// Arrangement positions in output order (the user's position first).
pub fn arrangement_order(n: usize, vp: usize) -> (r: Vec<usize>)
    requires
        vp < n,
    ensures
        r@.len() == n,
        forall|k: int| 0 <= k < n ==> #[trigger] r@[k] as int == voice_order(n as int, vp as int)[k],
        voice_order(n as int, vp as int).len() == n,
{
    let mut r: Vec<usize> = Vec::new();
    r.push(vp);
    let ghost full = voice_order(n as int, vp as int);
    let mut j: usize = 1;
    while j < n
        invariant
            1 <= j <= n,
            vp < n,
            full == voice_order(n as int, vp as int),
            full =~= r@.map_values(|x: usize| x as int) + outward_from(n as int, vp as int, j as int),
        decreases n - j,
    {
        proof {
            lemma_outward_step(n as int, vp as int, j as int);
        }
        let ghost before = r@;
        if j <= vp {
            r.push(vp - j);
        }
        if j < n - vp {
            r.push(vp + j);
        }
        proof {
            assert(r@.map_values(|x: usize| x as int) =~= before.map_values(|x: usize| x as int) + (if vp - j
                >= 0 { seq![vp - j] } else { Seq::<int>::empty() }) + (if vp + j < n {
                seq![vp + j]
            } else {
                Seq::<int>::empty()
            }));
        }
        j = j + 1;
    }
    proof {
        lemma_outward_step(n as int, vp as int, n as int);
        lemma_outward_len(n as int, vp as int, 1);
        assert(full =~= r@.map_values(|x: usize| x as int));
        assert forall|k: int| 0 <= k < n implies #[trigger] r@[k] as int == full[k] by {
            assert(r@.map_values(|x: usize| x as int)[k] == r@[k] as int);
        }
    }
    r
}

/// Registers of the voices in output order: the user's register first, then
/// the others outward from the user's position.
pub fn build_registers_for_position(voice_count: usize, voice_position: usize) -> (r: Vec<VoiceRegister>)
    ensures
        r@ == spec_registers(voice_count as int, voice_position as int),
{
    if voice_count <= 1 {
        let r = vec![VoiceRegister::Soprano];
        assert(r@ =~= seq![VoiceRegister::Soprano]);
        return r;
    }
    let vp = if voice_position < voice_count - 1 {
        voice_position
    } else {
        voice_count - 1
    };
    let order = arrangement_order(voice_count, vp);
    let ghost target = spec_registers(voice_count as int, voice_position as int);
    let mut r: Vec<VoiceRegister> = Vec::new();
    let mut k: usize = 0;
    while k < order.len()
        invariant
            k <= order@.len(),
            order@.len() == voice_count,
            voice_count >= 2,
            vp < voice_count,
            target == voice_order(voice_count as int, vp as int).map_values(
                |i: int| arrangement_register(voice_count as int, i),
            ),
            voice_order(voice_count as int, vp as int).len() == voice_count,
            forall|t: int|
                0 <= t < voice_count ==> #[trigger] order@[t] as int == voice_order(voice_count as int, vp as int)[t],
            r@.len() == k,
            forall|t: int| 0 <= t < k ==> #[trigger] r@[t] == target[t],
        decreases order@.len() - k,
    {
        let i = order[k];
        proof {
            assert(0 <= order@[k as int] < voice_count) by {
                lemma_voice_order_bounds(voice_count as int, vp as int, k as int);
            }
        }
        r.push(arrangement_reg(voice_count, i));
        k = k + 1;
    }
    assert(r@ =~= target);
    r
}

/// Every position in the output order is a valid arrangement position.
proof fn lemma_voice_order_bounds(n: int, vp: int, k: int)
    requires
        0 <= vp < n,
        0 <= k < voice_order(n, vp).len(),
    ensures
        0 <= voice_order(n, vp)[k] < n,
{
    lemma_outward_bounds(n, vp, 1);
    if k > 0 {
        assert(voice_order(n, vp)[k] == outward_from(n, vp, 1)[k - 1]);
    }
}

/// Positions outward from `vp` are valid arrangement positions.
proof fn lemma_outward_bounds(n: int, vp: int, j: int)
    requires
        0 <= vp < n,
        j >= 1,
    ensures
        forall|k: int| 0 <= k < outward_from(n, vp, j).len() ==> 0 <= #[trigger] outward_from(n, vp, j)[k] < n,
    decreases n - j,
{
    if !(j <= 0 || (vp - j < 0 && vp + j >= n) || n - j <= 0) {
        lemma_outward_bounds(n, vp, j + 1);
        let a: Seq<int> = if vp - j >= 0 { seq![vp - j] } else { Seq::empty() };
        let b: Seq<int> = if vp + j < n { seq![vp + j] } else { Seq::empty() };
        let rest = outward_from(n, vp, j + 1);
        assert forall|k: int| 0 <= k < (a + b + rest).len() implies 0 <= #[trigger] (a + b + rest)[k] < n by {
            if k < a.len() {
            } else if k < a.len() + b.len() {
                assert((a + b + rest)[k] == b[k - a.len()]);
            } else {
                assert((a + b + rest)[k] == rest[k - a.len() - b.len()]);
            }
        }
    }
}

// ---------------------------------------------------------------------------
// Voice leading post-processor
// ---------------------------------------------------------------------------

/// Voice leading post-processor that re-voices harmony output for smooth
/// transitions.
pub struct VoiceLeadingProcessor {
    enabled: bool,
    style: VoiceLeadingStyle,
    style_rules: StyleRules,
    /// Previous chord voicing (index 0 = melody, 1+ = harmony).
    previous_voicing: Option<Vec<u8>>,
    /// Registers in output order (index 0 = the user's voice).
    registers: Vec<VoiceRegister>,
}

/// Abstract state of the voice leading post-processor.
pub struct VoiceLeadingView {
    pub enabled: bool,
    pub style: VoiceLeadingStyle,
    pub style_rules: StyleRules,
    pub previous_voicing: Option<Seq<u8>>,
    pub registers: Seq<VoiceRegister>,
}

impl View for VoiceLeadingProcessor {
    type V = VoiceLeadingView;

    closed spec fn view(&self) -> VoiceLeadingView {
        VoiceLeadingView {
            enabled: self.enabled,
            style: self.style,
            style_rules: self.style_rules,
            previous_voicing: match self.previous_voicing {
                Some(v) => Some(v@),
                None => None,
            },
            registers: self.registers@,
        }
    }
}

impl VoiceLeadingProcessor {
    /// A disabled processor with the default style and registers for
    /// `voice_count` voices with the user at the bottom.
    pub fn new(voice_count: usize) -> (r: Self)
        ensures
            r@ == (VoiceLeadingView {
                enabled: false,
                style: VoiceLeadingStyle::Free,
                style_rules: spec_rules_for(VoiceLeadingStyle::Free),
                previous_voicing: None,
                registers: spec_registers(voice_count as int, if voice_count > 0 { voice_count - 1 } else { 0 }),
            }),
    {
        let style = VoiceLeadingStyle::Free;
        let vp = if voice_count > 0 {
            voice_count - 1
        } else {
            0
        };
        VoiceLeadingProcessor {
            enabled: false,
            style,
            style_rules: StyleRules::for_style(style),
            previous_voicing: None,
            registers: build_registers_for_position(voice_count, vp),
        }
    }

    /// Forgets the previous voicing.
    pub fn reset(&mut self)
        ensures
            final(self)@ == (VoiceLeadingView { previous_voicing: None, ..old(self)@ }),
    {
        self.previous_voicing = None;
    }

    /// Changes the style (and its rules) and forgets the previous voicing.
    pub fn set_style(&mut self, style: VoiceLeadingStyle)
        ensures
            final(self)@ == (VoiceLeadingView {
                style,
                style_rules: spec_rules_for(style),
                previous_voicing: None,
                ..old(self)@
            }),
    {
        self.style = style;
        self.style_rules = StyleRules::for_style(style);
        self.previous_voicing = None;
    }

    /// Rebuilds the registers for a new arrangement and forgets the previous voicing.
    pub fn rebuild_for_voices(&mut self, voice_count: usize, voice_position: usize)
        ensures
            final(self)@ == (VoiceLeadingView {
                registers: spec_registers(voice_count as int, voice_position as int),
                previous_voicing: None,
                ..old(self)@
            }),
    {
        self.registers = build_registers_for_position(voice_count, voice_position);
        self.previous_voicing = None;
    }
}

// ---------------------------------------------------------------------------
// Mode steps
// ---------------------------------------------------------------------------

/// The state the mode algorithms read and update: the scale and the
/// per-voice states of the stateful modes.
pub struct StepState {
    pub scale: ScaleView,
    pub contrary: Seq<ContraryView>,
    pub counterpoint: Seq<CounterpointView>,
}

/// Modes whose harmony interval is drawn at random.
pub open spec fn is_random_mode(m: HarmonyMode) -> bool {
    m == HarmonyMode::RandomBelow || m == HarmonyMode::RandomBelowNoSeconds
}

/// A scale-only harmony step of `degrees`, in state terms.
pub open spec fn scale_step(st: StepState, note: u8, degrees: int, above: bool) -> (Seq<u8>, StepState) {
    let (o, sc) = spec_harmony_step(st.scale, note, degrees, above);
    (o, StepState { scale: sc, ..st })
}

/// One directed step of a deterministic mode on voice chain slot `idx`: the
/// notes produced (the input, then the harmony if any) and the new state.
/// Modes without a chain algorithm (pass-through, Barry Harris, functional
/// harmony, Bach chorale) produce the input alone.
pub open spec fn spec_step(m: HarmonyMode, st: StepState, note: u8, idx: int, above: bool) -> (Seq<u8>, StepState) {
    match m {
        HarmonyMode::DiatonicThirds => scale_step(st, note, if above { 2 } else { -2 }, above),
        HarmonyMode::DiatonicFourths => scale_step(st, note, if above { 3 } else { -3 }, above),
        HarmonyMode::ContraryMotion => if 0 <= idx < st.contrary.len() {
            let (o, cv, sc) = contrary_step(st.contrary[idx], st.scale, note, Some(above));
            (o, StepState { scale: sc, contrary: st.contrary.update(idx, cv), ..st })
        } else {
            (seq![note], st)
        },
        HarmonyMode::StrictCounterpoint => if 0 <= idx < st.counterpoint.len() {
            let (o, cp) = counterpoint_step(st.counterpoint[idx], st.scale, note, Some(above));
            (o, StepState { counterpoint: st.counterpoint.update(idx, cp), ..st })
        } else {
            (seq![note], st)
        },
        _ => (seq![note], st),
    }
}

/// A step of a random mode: a 2nd-7th (3rd-7th without seconds) in the
/// chosen direction, drawn at random.
pub open spec fn random_step_ok(m: HarmonyMode, st: StepState, note: u8, above: bool, out: Seq<u8>, st2: StepState) -> bool {
    if m == HarmonyMode::RandomBelow {
        exists|k: int|
            0 <= k < 6 && (out, st2) == scale_step(
                st,
                note,
                if above { -(#[trigger] random_below_degrees()[k]) } else { random_below_degrees()[k] },
                above,
            )
    } else {
        exists|k: int|
            0 <= k < 5 && (out, st2) == scale_step(
                st,
                note,
                if above {
                    -(#[trigger] random_below_no_seconds_degrees()[k])
                } else {
                    random_below_no_seconds_degrees()[k]
                },
                above,
            )
    }
}

/// A step's possible outcomes: exactly `spec_step` for a deterministic mode.
pub open spec fn step_ok(
    m: HarmonyMode,
    st: StepState,
    note: u8,
    idx: int,
    above: bool,
    out: Seq<u8>,
    st2: StepState,
) -> bool {
    if is_random_mode(m) {
        random_step_ok(m, st, note, above, out, st2)
    } else {
        (out, st2) == spec_step(m, st, note, idx, above)
    }
}

/// A chain of up to `count` steps from `note` on slots `idx, idx+1, ...`,
/// each step harmonizing the previous harmony, stopping at the first step
/// without a harmony: the harmonies produced `hs`, the final state and the
/// next free slot.
pub open spec fn chain_ok(
    m: HarmonyMode,
    st: StepState,
    note: u8,
    idx: int,
    count: nat,
    above: bool,
    hs: Seq<u8>,
    st_end: StepState,
    idx_end: int,
) -> bool
    decreases count,
{
    if count == 0 {
        hs == Seq::<u8>::empty() && st_end == st && idx_end == idx
    } else {
        exists|o: Seq<u8>, st1: StepState|
            #[trigger] step_ok(m, st, note, idx, above, o, st1) && if o.len() > 1 {
                &&& hs.len() > 0
                &&& hs[0] == o[1]
                &&& chain_ok(m, st1, o[1], idx + 1, (count - 1) as nat, above, hs.drop_first(), st_end, idx_end)
            } else {
                hs == Seq::<u8>::empty() && st_end == st1 && idx_end == idx + 1
            }
    }
}

// ---------------------------------------------------------------------------
// The engine
// ---------------------------------------------------------------------------

/// The harmony engine that transforms incoming MIDI notes.
///
/// Holds the key and mode configuration, generates harmony voices chained
/// outward from the user's voice position, and tracks active notes so that a
/// Note-Off releases the same harmony notes its Note-On produced (which
/// matters for the random modes).
pub struct HarmonyEngine {
    key: Key,
    mode: HarmonyMode,
    octave_mode: OctaveMode,
    scale_mode: ScaleMode,
    scale: Scale,
    interchange_enabled: bool,
    borrowing_range: u8,
    last_borrowed_from: Option<ScaleMode>,
    /// Number of output voices (1 = melody only).
    voice_count: usize,
    /// The voice the user plays (0 = top, voice_count - 1 = bass).
    voice_position: usize,
    /// Per chain slot state of the stateful modes.
    contrary_motion_states: Vec<ContraryMotionState>,
    counterpoint_states: Vec<CounterpointState>,
    /// Melody note -> harmony notes produced by its Note-On.
    active_notes: HashMap<u8, Vec<u8>>,
    /// Output port of each note of the most recent result.
    last_port_map: Vec<usize>,
    /// Arrangement position of each note of the most recent result.
    last_arrangement_indices: Vec<usize>,
    /// Melody note -> port map of its Note-On.
    active_port_maps: HashMap<u8, Vec<usize>>,
    voice_leading: VoiceLeadingProcessor,
}

/// Abstract state of the engine.
pub struct EngineView {
    pub key: Key,
    pub mode: HarmonyMode,
    pub octave_mode: OctaveMode,
    pub scale_mode: ScaleMode,
    pub steps: StepState,
    pub interchange_enabled: bool,
    pub borrowing_range: u8,
    pub last_borrowed_from: Option<ScaleMode>,
    pub voice_count: nat,
    pub voice_position: nat,
    pub active_notes: Map<u8, Seq<u8>>,
    pub active_port_maps: Map<u8, Seq<usize>>,
    pub last_port_map: Seq<usize>,
    pub last_arrangement: Seq<usize>,
    pub voice_leading: VoiceLeadingView,
}

impl View for HarmonyEngine {
    type V = EngineView;

    closed spec fn view(&self) -> EngineView {
        EngineView {
            key: self.key,
            mode: self.mode,
            octave_mode: self.octave_mode,
            scale_mode: self.scale_mode,
            steps: StepState {
                scale: self.scale@,
                contrary: self.contrary_motion_states@.map_values(|c: ContraryMotionState| c@),
                counterpoint: self.counterpoint_states@.map_values(|c: CounterpointState| c@),
            },
            interchange_enabled: self.interchange_enabled,
            borrowing_range: self.borrowing_range,
            last_borrowed_from: self.last_borrowed_from,
            voice_count: self.voice_count as nat,
            voice_position: self.voice_position as nat,
            active_notes: self.active_notes@.map_values(|v: Vec<u8>| v@),
            active_port_maps: self.active_port_maps@.map_values(|v: Vec<usize>| v@),
            last_port_map: self.last_port_map@,
            last_arrangement: self.last_arrangement_indices@,
            voice_leading: self.voice_leading@,
        }
    }
}

/// Fresh (history-free) states for `n` chain slots.
pub open spec fn fresh_contrary(n: nat) -> Seq<ContraryView> {
    Seq::new(n, |i: int| contrary_initial())
}

/// Fresh (history-free) states for `n` chain slots.
pub open spec fn fresh_counterpoint(n: nat) -> Seq<CounterpointView> {
    Seq::new(n, |i: int| counterpoint_initial())
}

/// The scale of a key and scale mode with the given interchange settings.
pub open spec fn configured_scale(key: Key, mode: ScaleMode, interchange: bool, range: u8) -> ScaleView {
    ScaleView {
        tonic: key.spec_semitones(),
        mode,
        interchange_enabled: interchange,
        borrowing_range: range,
        last_borrowed_from: None,
    }
}

/// `n` fresh contrary-motion states.
fn new_contrary_states(n: usize) -> (r: Vec<ContraryMotionState>)
    ensures
        r@.len() == n,
        r@.map_values(|c: ContraryMotionState| c@) == fresh_contrary(n as nat),
{
    let mut r: Vec<ContraryMotionState> = Vec::new();
    let mut i: usize = 0;
    while i < n
        invariant
            i <= n,
            r@.len() == i,
            forall|k: int| 0 <= k < i ==> (#[trigger] r@[k])@ == contrary_initial(),
        decreases n - i,
    {
        r.push(ContraryMotionState::new());
        i = i + 1;
    }
    assert(r@.map_values(|c: ContraryMotionState| c@) =~= fresh_contrary(n as nat));
    r
}

/// `n` fresh counterpoint states.
fn new_counterpoint_states(n: usize) -> (r: Vec<CounterpointState>)
    ensures
        r@.len() == n,
        r@.map_values(|c: CounterpointState| c@) == fresh_counterpoint(n as nat),
{
    let mut r: Vec<CounterpointState> = Vec::new();
    let mut i: usize = 0;
    while i < n
        invariant
            i <= n,
            r@.len() == i,
            forall|k: int| 0 <= k < i ==> (#[trigger] r@[k])@ == counterpoint_initial(),
        decreases n - i,
    {
        r.push(CounterpointState::new());
        i = i + 1;
    }
    assert(r@.map_values(|c: CounterpointState| c@) =~= fresh_counterpoint(n as nat));
    r
}

/// A scale for `key` and `mode` with the given interchange settings.
fn configured(key: Key, mode: ScaleMode, interchange: bool, range: u8) -> (r: Scale)
    requires
        1 <= range <= 5,
    ensures
        r@ == configured_scale(key, mode, interchange, range),
{
    let mut scale = Scale::new(key.semitones_from_c(), mode);
    scale.set_interchange_enabled(interchange);
    scale.set_borrowing_range(range);
    scale
}

/// The state after `set_octave_mode`.
pub open spec fn after_set_octave_mode(e: EngineView, octave_mode: OctaveMode) -> EngineView {
    EngineView {
        octave_mode,
        active_notes: Map::empty(),
        active_port_maps: Map::empty(),
        ..e
    }
}

/// The state after `set_voice_count`.
pub open spec fn after_set_voice_count(e: EngineView, count: usize) -> EngineView {
    ({
        let c: nat = if count < 1 { 1 } else { count as nat };
        let p: nat = if e.voice_position < c - 1 {
            e.voice_position
        } else {
            (c - 1) as nat
        };
        if c == e.voice_count {
            e
        } else {
            EngineView {
                voice_count: c,
                voice_position: p,
                steps: StepState {
                    contrary: fresh_contrary((c - 1) as nat),
                    counterpoint: fresh_counterpoint((c - 1) as nat),
                    ..e.steps
                },
                active_notes: Map::empty(),
                active_port_maps: Map::empty(),
                voice_leading: VoiceLeadingView {
                    registers: spec_registers(c as int, p as int),
                    previous_voicing: None,
                    ..e.voice_leading
                },
                ..e
            }
        }
    })
}

/// The state after `set_key`.
pub open spec fn after_set_key(e: EngineView, key: Key) -> EngineView {
    EngineView {
        key,
        steps: StepState {
            scale: configured_scale(
                key,
                e.scale_mode,
                e.interchange_enabled,
                e.borrowing_range,
            ),
            contrary: fresh_contrary((e.voice_count - 1) as nat),
            counterpoint: fresh_counterpoint((e.voice_count - 1) as nat),
        },
        active_notes: Map::empty(),
        active_port_maps: Map::empty(),
        voice_leading: VoiceLeadingView { previous_voicing: None, ..e.voice_leading },
        ..e
    }
}

/// The state after `set_mode`.
pub open spec fn after_set_mode(e: EngineView, mode: HarmonyMode) -> EngineView {
    EngineView {
        mode,
        steps: StepState {
            contrary: fresh_contrary((e.voice_count - 1) as nat),
            counterpoint: fresh_counterpoint((e.voice_count - 1) as nat),
            ..e.steps
        },
        active_notes: Map::empty(),
        active_port_maps: Map::empty(),
        voice_leading: VoiceLeadingView { previous_voicing: None, ..e.voice_leading },
        ..e
    }
}

impl HarmonyEngine {
    /// The engine's internal consistency: at least one voice, the user's
    /// position among them, one stateful-mode state per harmony voice, and
    /// the scale matching the key and settings.
    pub closed spec fn wf(&self) -> bool {
        &&& self.voice_count >= 1
        &&& self.voice_position < self.voice_count
        &&& self.contrary_motion_states@.len() == self.voice_count - 1
        &&& self.counterpoint_states@.len() == self.voice_count - 1
        &&& self.scale@.tonic == self.key.spec_semitones()
        &&& self.scale@.mode == self.scale_mode
        &&& self.scale@.interchange_enabled == self.interchange_enabled
        &&& self.scale@.borrowing_range == self.borrowing_range
        &&& 1 <= self.borrowing_range <= 5
        &&& forall|k: u8| #[trigger] self.active_notes@.contains_key(k) ==> all_midi(self.active_notes@[k]@)
    }

    /// The notes a Note-Off releases are within the MIDI range.
    pub proof fn lemma_release_midi(&self, note: u8)
        requires
            self.wf(),
            note <= 127,
        ensures
            all_midi(spec_release(self@.active_notes, note)),
    {
        if self@.active_notes.contains_key(note) {
            let h = self@.active_notes[note];
            assert(h == self.active_notes@[note]@);
            assert forall|i: int| 0 <= i < (seq![note] + h).len() implies #[trigger] (seq![note] + h)[i] <= 127 by {
                if i > 0 {
                    assert((seq![note] + h)[i] == h[i - 1]);
                }
            }
        } else {
            assert forall|i: int| 0 <= i < seq![note].len() implies #[trigger] seq![note][i] <= 127 by {}
        }
    }

    /// The view of a well-formed engine is consistent.
    pub proof fn lemma_wf_view(&self)
        requires
            self.wf(),
        ensures
            self@.voice_count >= 1,
            self@.voice_position < self@.voice_count,
            self@.steps.contrary.len() == self@.voice_count - 1,
            self@.steps.counterpoint.len() == self@.voice_count - 1,
            self@.steps.scale.interchange_enabled == self@.interchange_enabled,
            self@.steps.scale.borrowing_range == self@.borrowing_range,
            self@.steps.scale.mode == self@.scale_mode,
    {
    }

    /// A new engine with `voice_count` voices (at least one), the user on
    /// the lowest voice, the key's major (Ionian) scale, no octave shift, no
    /// interchange (borrowing range 3) and voice leading off.
    pub fn with_voices(key: Key, mode: HarmonyMode, voice_count: usize) -> (r: Self)
        ensures
            r.wf(),
            r@ == ({
                let vc: nat = if voice_count < 1 { 1 } else { voice_count as nat };
                EngineView {
                    key,
                    mode,
                    octave_mode: OctaveMode::NoShift,
                    scale_mode: ScaleMode::Ionian,
                    steps: StepState {
                        scale: configured_scale(key, ScaleMode::Ionian, false, 3),
                        contrary: fresh_contrary((vc - 1) as nat),
                        counterpoint: fresh_counterpoint((vc - 1) as nat),
                    },
                    interchange_enabled: false,
                    borrowing_range: 3,
                    last_borrowed_from: None,
                    voice_count: vc,
                    voice_position: (vc - 1) as nat,
                    active_notes: Map::empty(),
                    active_port_maps: Map::empty(),
                    last_port_map: Seq::empty(),
                    last_arrangement: Seq::empty(),
                    voice_leading: VoiceLeadingView {
                        enabled: false,
                        style: VoiceLeadingStyle::Free,
                        style_rules: spec_rules_for(VoiceLeadingStyle::Free),
                        previous_voicing: None,
                        registers: spec_registers(vc as int, vc - 1),
                    },
                }
            }),
    {
        let vc = if voice_count < 1 {
            1
        } else {
            voice_count
        };
        let scale = configured(key, ScaleMode::Ionian, false, 3);
        let r = HarmonyEngine {
            key,
            mode,
            octave_mode: OctaveMode::NoShift,
            scale_mode: ScaleMode::Ionian,
            scale,
            interchange_enabled: false,
            borrowing_range: 3,
            last_borrowed_from: None,
            voice_count: vc,
            voice_position: vc - 1,
            contrary_motion_states: new_contrary_states(vc - 1),
            counterpoint_states: new_counterpoint_states(vc - 1),
            active_notes: HashMap::new(),
            last_port_map: Vec::new(),
            last_arrangement_indices: Vec::new(),
            active_port_maps: HashMap::new(),
            voice_leading: VoiceLeadingProcessor::new(vc),
        };
        assert(r@.active_notes =~= Map::<u8, Seq<u8>>::empty());
        assert(r@.active_port_maps =~= Map::<u8, Seq<usize>>::empty());
        r
    }

    /// A new engine with two voices (melody + one harmony).
    pub fn new(key: Key, mode: HarmonyMode) -> (r: Self)
        ensures
            r.wf(),
            r@ == Self::with_voices_view(key, mode, 2),
    {
        Self::with_voices(key, mode, 2)
    }

    /// The state `with_voices` creates.
    pub open spec fn with_voices_view(key: Key, mode: HarmonyMode, voice_count: nat) -> EngineView {
        let vc: nat = if voice_count < 1 { 1 } else { voice_count };
        EngineView {
            key,
            mode,
            octave_mode: OctaveMode::NoShift,
            scale_mode: ScaleMode::Ionian,
            steps: StepState {
                scale: configured_scale(key, ScaleMode::Ionian, false, 3),
                contrary: fresh_contrary((vc - 1) as nat),
                counterpoint: fresh_counterpoint((vc - 1) as nat),
            },
            interchange_enabled: false,
            borrowing_range: 3,
            last_borrowed_from: None,
            voice_count: vc,
            voice_position: (vc - 1) as nat,
            active_notes: Map::empty(),
            active_port_maps: Map::empty(),
            last_port_map: Seq::empty(),
            last_arrangement: Seq::empty(),
            voice_leading: VoiceLeadingView {
                enabled: false,
                style: VoiceLeadingStyle::Free,
                style_rules: spec_rules_for(VoiceLeadingStyle::Free),
                previous_voicing: None,
                registers: spec_registers(vc as int, vc - 1),
            },
        }
    }

    /// Returns the current key.
    pub fn key(&self) -> (r: Key)
        ensures
            r == self@.key,
    {
        self.key
    }

    /// Returns the current mode.
    pub fn mode(&self) -> (r: HarmonyMode)
        ensures
            r == self@.mode,
    {
        self.mode
    }

    /// Returns the current octave mode.
    pub fn octave_mode(&self) -> (r: OctaveMode)
        ensures
            r == self@.octave_mode,
    {
        self.octave_mode
    }

    /// The output port of each note of the most recent result.
    pub fn last_port_map(&self) -> (r: &[usize])
        ensures
            r@ == self@.last_port_map,
    {
        self.last_port_map.as_slice()
    }

    /// Returns the current voice count.
    pub fn voice_count(&self) -> (r: usize)
        ensures
            r == self@.voice_count,
    {
        self.voice_count
    }

    /// Returns the user's voice position (0 = top, voice_count - 1 = bass).
    pub fn voice_position(&self) -> (r: usize)
        ensures
            r == self@.voice_position,
    {
        self.voice_position
    }

    /// Returns the current scale mode.
    pub fn scale_mode(&self) -> (r: ScaleMode)
        ensures
            r == self@.scale_mode,
    {
        self.scale_mode
    }

    /// Returns whether modal interchange is enabled.
    pub fn interchange_enabled(&self) -> (r: bool)
        ensures
            r == self@.interchange_enabled,
    {
        self.interchange_enabled
    }

    /// Returns the borrowing range (1-5).
    pub fn borrowing_range(&self) -> (r: u8)
        ensures
            r == self@.borrowing_range,
    {
        self.borrowing_range
    }

    /// The mode the most recent Note-On's harmony was borrowed from.
    pub fn last_borrowed_from(&self) -> (r: Option<ScaleMode>)
        ensures
            r == self@.last_borrowed_from,
    {
        self.last_borrowed_from
    }

    /// Returns whether voice leading is enabled.
    pub fn voice_leading_enabled(&self) -> (r: bool)
        ensures
            r == self@.voice_leading.enabled,
    {
        self.voice_leading.enabled
    }

    /// Returns the voice leading style.
    pub fn voice_leading_style(&self) -> (r: VoiceLeadingStyle)
        ensures
            r == self@.voice_leading.style,
    {
        self.voice_leading.style
    }

    /// Forgets all tracked notes.
    fn clear_tracking(&mut self)
        ensures
            final(self)@ == (EngineView {
                active_notes: Map::empty(),
                active_port_maps: Map::empty(),
                ..old(self)@
            }),
            old(self).wf() ==> final(self).wf(),
    {
        self.active_notes.clear();
        self.active_port_maps.clear();
        assert(self@.active_notes =~= Map::<u8, Seq<u8>>::empty());
        assert(self@.active_port_maps =~= Map::<u8, Seq<usize>>::empty());
    }

    /// Resets the stateful modes' history.
    fn reset_states(&mut self)
        requires
            old(self).wf(),
        ensures
            final(self).wf(),
            final(self)@ == (EngineView {
                steps: StepState {
                    contrary: fresh_contrary((old(self)@.voice_count - 1) as nat),
                    counterpoint: fresh_counterpoint((old(self)@.voice_count - 1) as nat),
                    ..old(self)@.steps
                },
                ..old(self)@
            }),
    {
        self.contrary_motion_states = new_contrary_states(self.voice_count - 1);
        self.counterpoint_states = new_counterpoint_states(self.voice_count - 1);
    }

    /// Sets the octave mode and forgets tracked notes.
    pub fn set_octave_mode(&mut self, octave_mode: OctaveMode)
        requires
            old(self).wf(),
        ensures
            final(self).wf(),
            final(self)@ == after_set_octave_mode(old(self)@, octave_mode),

    {
        self.octave_mode = octave_mode;
        self.clear_tracking();
    }

    /// Sets the user's voice position, clamped to the voices; a change
    /// forgets tracked notes and rebuilds the voice-leading registers.
    pub fn set_voice_position(&mut self, position: usize)
        requires
            old(self).wf(),
        ensures
            final(self).wf(),
            ({
                let p: nat = if position < old(self)@.voice_count - 1 {
                    position as nat
                } else {
                    (old(self)@.voice_count - 1) as nat
                };
                if p == old(self)@.voice_position {
                    final(self)@ == old(self)@
                } else {
                    final(self)@ == (EngineView {
                        voice_position: p,
                        active_notes: Map::empty(),
                        active_port_maps: Map::empty(),
                        voice_leading: VoiceLeadingView {
                            registers: spec_registers(old(self)@.voice_count as int, p as int),
                            previous_voicing: None,
                            ..old(self)@.voice_leading
                        },
                        ..old(self)@
                    })
                }
            }),
    {
        let p = if position < self.voice_count - 1 {
            position
        } else {
            self.voice_count - 1
        };
        if p == self.voice_position {
            return;
        }
        self.voice_position = p;
        self.clear_tracking();
        self.voice_leading.rebuild_for_voices(self.voice_count, p);
    }

    /// Sets the number of voices (at least one); a change clamps the voice
    /// position, resets the stateful modes, forgets tracked notes and rebuilds
    /// the voice-leading registers.
    pub fn set_voice_count(&mut self, count: usize)
        requires
            old(self).wf(),
        ensures
            final(self).wf(),
            final(self)@ == after_set_voice_count(old(self)@, count),

    {
        let c = if count < 1 {
            1
        } else {
            count
        };
        if c == self.voice_count {
            return;
        }
        self.voice_count = c;
        if self.voice_position >= c - 1 {
            self.voice_position = c - 1;
        }
        self.contrary_motion_states = new_contrary_states(c - 1);
        self.counterpoint_states = new_counterpoint_states(c - 1);
        self.clear_tracking();
        self.voice_leading.rebuild_for_voices(c, self.voice_position);
    }

    /// Sets the key and rebuilds the scale; resets the stateful modes,
    /// forgets tracked notes and the previous voicing.
    pub fn set_key(&mut self, key: Key)
        requires
            old(self).wf(),
        ensures
            final(self).wf(),
            final(self)@ == after_set_key(old(self)@, key),

    {
        self.key = key;
        self.scale = configured(key, self.scale_mode, self.interchange_enabled, self.borrowing_range);
        self.reset_states();
        self.clear_tracking();
        self.voice_leading.reset();
    }

    /// Sets the harmony mode; resets the stateful modes, forgets tracked
    /// notes and the previous voicing.
    pub fn set_mode(&mut self, mode: HarmonyMode)
        requires
            old(self).wf(),
        ensures
            final(self).wf(),
            final(self)@ == after_set_mode(old(self)@, mode),

    {
        self.mode = mode;
        self.reset_states();
        self.clear_tracking();
        self.voice_leading.reset();
    }

    /// Sets the scale mode and rebuilds the scale; resets the stateful
    /// modes, forgets tracked notes and the previous voicing.
    pub fn set_scale_mode(&mut self, mode: ScaleMode)
        requires
            old(self).wf(),
        ensures
            final(self).wf(),
            final(self)@ == (EngineView {
                scale_mode: mode,
                steps: StepState {
                    scale: configured_scale(
                        old(self)@.key,
                        mode,
                        old(self)@.interchange_enabled,
                        old(self)@.borrowing_range,
                    ),
                    contrary: fresh_contrary((old(self)@.voice_count - 1) as nat),
                    counterpoint: fresh_counterpoint((old(self)@.voice_count - 1) as nat),
                },
                active_notes: Map::empty(),
                active_port_maps: Map::empty(),
                voice_leading: VoiceLeadingView { previous_voicing: None, ..old(self)@.voice_leading },
                ..old(self)@
            }),
    {
        self.scale_mode = mode;
        self.scale = configured(self.key, mode, self.interchange_enabled, self.borrowing_range);
        self.reset_states();
        self.clear_tracking();
        self.voice_leading.reset();
    }

    /// Enables or disables modal interchange; forgets tracked notes.
    pub fn set_interchange_enabled(&mut self, enabled: bool)
        requires
            old(self).wf(),
        ensures
            final(self).wf(),
            final(self)@ == (EngineView {
                interchange_enabled: enabled,
                steps: StepState {
                    scale: ScaleView { interchange_enabled: enabled, ..old(self)@.steps.scale },
                    ..old(self)@.steps
                },
                active_notes: Map::empty(),
                active_port_maps: Map::empty(),
                ..old(self)@
            }),
    {
        self.interchange_enabled = enabled;
        self.scale.set_interchange_enabled(enabled);
        self.clear_tracking();
    }

    /// Sets the borrowing range (clamped to 1-5); forgets tracked notes.
    pub fn set_borrowing_range(&mut self, range: u8)
        requires
            old(self).wf(),
        ensures
            final(self).wf(),
            ({
                let r: u8 = if range < 1 { 1 } else if range > 5 { 5 } else { range };
                final(self)@ == (EngineView {
                    borrowing_range: r,
                    steps: StepState {
                        scale: ScaleView { borrowing_range: r, ..old(self)@.steps.scale },
                        ..old(self)@.steps
                    },
                    active_notes: Map::empty(),
                    active_port_maps: Map::empty(),
                    ..old(self)@
                })
            }),
    {
        let r: u8 = if range < 1 {
            1
        } else if range > 5 {
            5
        } else {
            range
        };
        self.borrowing_range = r;
        self.scale.set_borrowing_range(r);
        self.clear_tracking();
    }

    /// Enables or disables voice leading (disabling forgets the previous
    /// voicing); forgets tracked notes.
    pub fn set_voice_leading_enabled(&mut self, enabled: bool)
        requires
            old(self).wf(),
        ensures
            final(self).wf(),
            final(self)@ == (EngineView {
                active_notes: Map::empty(),
                active_port_maps: Map::empty(),
                voice_leading: VoiceLeadingView {
                    enabled,
                    previous_voicing: if enabled { old(self)@.voice_leading.previous_voicing } else { None },
                    ..old(self)@.voice_leading
                },
                ..old(self)@
            }),
    {
        self.voice_leading.enabled = enabled;
        if !enabled {
            self.voice_leading.reset();
        }
        self.clear_tracking();
    }

    /// Sets the voice leading style (forgetting the previous voicing);
    /// forgets tracked notes.
    pub fn set_voice_leading_style(&mut self, style: VoiceLeadingStyle)
        requires
            old(self).wf(),
        ensures
            final(self).wf(),
            final(self)@ == (EngineView {
                active_notes: Map::empty(),
                active_port_maps: Map::empty(),
                voice_leading: VoiceLeadingView {
                    style,
                    style_rules: spec_rules_for(style),
                    previous_voicing: None,
                    ..old(self)@.voice_leading
                },
                ..old(self)@
            }),
    {
        self.voice_leading.set_style(style);
        self.clear_tracking();
    }
}

// ---------------------------------------------------------------------------
// Output assembly
// ---------------------------------------------------------------------------

/// Harmony voices in output order, from distance `j` outward: at each
/// distance the voice above (from chain `above`) then the one below (from
/// chain `below`), with their arrangement positions around `vp`.
pub open spec fn interleave(above: Seq<u8>, below: Seq<u8>, vp: int, j: int) -> (Seq<u8>, Seq<int>)
    decreases above.len() + below.len() + 1 - j,
{
    if j < 1 || (j > above.len() && j > below.len()) {
        (Seq::empty(), Seq::empty())
    } else {
        let (n, p) = interleave(above, below, vp, j + 1);
        let (na, pa): (Seq<u8>, Seq<int>) = if j <= above.len() {
            (seq![above[j - 1]], seq![vp - j])
        } else {
            (Seq::empty(), Seq::empty())
        };
        let (nb, pb): (Seq<u8>, Seq<int>) = if j <= below.len() {
            (seq![below[j - 1]], seq![vp + j])
        } else {
            (Seq::empty(), Seq::empty())
        };
        (na + nb + n, pa + pb + p)
    }
}

/// The user's note followed by the harmony voices in output order, and the
/// arrangement position of each.
pub open spec fn spec_flatten(note: u8, above: Seq<u8>, below: Seq<u8>, vp: int) -> (Seq<u8>, Seq<int>) {
    let (n, p) = interleave(above, below, vp, 1);
    (seq![note] + n, seq![vp] + p)
}

/// Whether moving output voice `i` to `shifted` keeps it on its side of the
/// user's note `m` (voices above the user stay at or above it, voices below
/// at or below it).
pub open spec fn anchor_ok(arr: Seq<usize>, vp: nat, m: u8, i: int, shifted: u8) -> bool {
    if 0 <= i < arr.len() {
        if arr[i] < vp {
            shifted >= m
        } else if arr[i] > vp {
            shifted <= m
        } else {
            true
        }
    } else {
        true
    }
}

/// Spread: voice `i` moves up `i` octaves (at most to 127).
pub open spec fn spread_note(n: u8, i: int) -> u8 {
    if n + 12 * i > 127 {
        127
    } else {
        (n + 12 * i) as u8
    }
}

/// Bass/treble split: voices below the user move down an octave (not below
/// 0), the others up one (at most to 127).
pub open spec fn split_note(n: u8, m: u8) -> u8 {
    if n < m {
        if n < 12 {
            0
        } else {
            (n - 12) as u8
        }
    } else if n + 12 > 127 {
        127
    } else {
        (n + 12) as u8
    }
}

/// Mirror duplicates of harmony voices `i..`: an octave above and an octave
/// below each, when within range and on the voice's side of the user.
pub open spec fn mirror_dups(notes: Seq<u8>, arr: Seq<usize>, vp: nat, i: int) -> Seq<(u8, int)>
    decreases notes.len() - i,
{
    if i < 1 || i >= notes.len() {
        Seq::empty()
    } else {
        let n = notes[i];
        let up: Seq<(u8, int)> = if n + 12 <= 127 && anchor_ok(arr, vp, notes[0], i, (n + 12) as u8) {
            seq![((n + 12) as u8, i)]
        } else {
            Seq::empty()
        };
        let down: Seq<(u8, int)> = if n >= 12 && anchor_ok(arr, vp, notes[0], i, (n - 12) as u8) {
            seq![((n - 12) as u8, i)]
        } else {
            Seq::empty()
        };
        up + down + mirror_dups(notes, arr, vp, i + 1)
    }
}

/// The octave transformation of an output (the melody, index 0, never
/// changes) and the output port of each resulting note: its arrangement
/// position (a mirror duplicate goes to the port of the voice it copies).
pub open spec fn spec_octave(mode: OctaveMode, notes: Seq<u8>, arr: Seq<usize>, vp: nat) -> (Seq<u8>, Seq<usize>) {
    if notes.len() <= 1 {
        (notes, arr)
    } else {
        let m = notes[0];
        match mode {
            OctaveMode::NoShift => (notes, arr),
            OctaveMode::Spread => (
                Seq::new(
                    notes.len(),
                    |i: int|
                        if i >= 1 && anchor_ok(arr, vp, m, i, spread_note(notes[i], i)) {
                            spread_note(notes[i], i)
                        } else {
                            notes[i]
                        },
                ),
                arr,
            ),
            OctaveMode::BassTrebleSplit => (
                Seq::new(
                    notes.len(),
                    |i: int|
                        if i >= 1 && anchor_ok(arr, vp, m, i, split_note(notes[i], m)) {
                            split_note(notes[i], m)
                        } else {
                            notes[i]
                        },
                ),
                arr,
            ),
            OctaveMode::Mirror => {
                let d = mirror_dups(notes, arr, vp, 1);
                (
                    notes + d.map_values(|e: (u8, int)| e.0),
                    arr + d.map_values(
                        |e: (u8, int)|
                            if e.1 < arr.len() {
                                arr[e.1]
                            } else {
                                e.1 as usize
                            },
                    ),
                )
            },
        }
    }
}

/// The output after voice leading: harmony voice `i` takes the revoiced
/// note `rv[i - 1]` when there is one within MIDI range.
pub open spec fn vl_apply(notes: Seq<u8>, rv: Seq<u8>) -> Seq<u8> {
    Seq::new(
        notes.len(),
        |i: int|
            if i >= 1 && i - 1 < rv.len() && rv[i - 1] <= 127 {
                rv[i - 1]
            } else {
                notes[i]
            },
    )
}

/// Pitch classes of the harmony voices of an output.
pub open spec fn harmony_pcs(notes: Seq<u8>) -> Seq<u8> {
    notes.drop_first().map_values(|n: u8| n % 12)
}

/// All notes within the MIDI range.
pub open spec fn all_midi(s: Seq<u8>) -> bool {
    forall|i: int| 0 <= i < s.len() ==> #[trigger] s[i] <= 127
}

/// Exec form of `spec_flatten`.
fn flatten_voices(note: u8, above: &Vec<u8>, below: &Vec<u8>, vp: usize) -> (r: (Vec<u8>, Vec<usize>))
    requires
        above@.len() <= vp,
        vp + below@.len() < usize::MAX,
    ensures
        r.0@ == spec_flatten(note, above@, below@, vp as int).0,
        r.1@.map_values(|x: usize| x as int) == spec_flatten(note, above@, below@, vp as int).1,
        r.0@.len() == r.1@.len(),
        r.0@.len() == 1 + above@.len() + below@.len(),
{
    proof {
        lemma_interleave_len(above@, below@, vp as int, 1);
    }
    let ghost total = spec_flatten(note, above@, below@, vp as int);
    let mut notes: Vec<u8> = vec![note];
    let mut arr: Vec<usize> = vec![vp];
    let mut j: usize = 1;
    while j <= above.len() || j <= below.len()
        invariant
            1 <= j,
            j <= above@.len() + 1 || j <= below@.len() + 1,
            above@.len() <= vp,
            vp + below@.len() < usize::MAX,
            total == spec_flatten(note, above@, below@, vp as int),
            notes@.len() == arr@.len(),
            notes@ + interleave(above@, below@, vp as int, j as int).0 == total.0,
            arr@.map_values(|x: usize| x as int) + interleave(above@, below@, vp as int, j as int).1 == total.1,
        decreases above@.len() + below@.len() + 1 - j,
    {
        let ghost rest = interleave(above@, below@, vp as int, j + 1);
        let ghost n0 = notes@;
        let ghost a0 = arr@.map_values(|x: usize| x as int);
        if j <= above.len() {
            notes.push(above[j - 1]);
            arr.push(vp - j);
        }
        if j <= below.len() {
            notes.push(below[j - 1]);
            arr.push(vp + j);
        }
        proof {
            let (na, pa): (Seq<u8>, Seq<int>) = if j <= above@.len() {
                (seq![above@[j - 1]], seq![vp - j])
            } else {
                (Seq::empty(), Seq::empty())
            };
            let (nb, pb): (Seq<u8>, Seq<int>) = if j <= below@.len() {
                (seq![below@[j - 1]], seq![vp + j])
            } else {
                (Seq::empty(), Seq::empty())
            };
            assert(interleave(above@, below@, vp as int, j as int) == (na + nb + rest.0, pa + pb + rest.1));
            assert(notes@ =~= n0 + na + nb);
            assert(arr@.map_values(|x: usize| x as int) =~= a0 + pa + pb);
            assert(notes@ + rest.0 =~= n0 + (na + nb + rest.0));
            assert(arr@.map_values(|x: usize| x as int) + rest.1 =~= a0 + (pa + pb + rest.1));
        }
        j = j + 1;
    }
    proof {
        assert(interleave(above@, below@, vp as int, j as int).0 =~= Seq::<u8>::empty());
        assert(notes@ =~= total.0);
        assert(arr@.map_values(|x: usize| x as int) =~= total.1);
    }
    (notes, arr)
}

/// Interleaving from distance `j` holds the voices at distance `j` or more.
proof fn lemma_interleave_len(above: Seq<u8>, below: Seq<u8>, vp: int, j: int)
    requires
        j >= 1,
    ensures
        interleave(above, below, vp, j).0.len() == (if above.len() - j + 1 > 0 { above.len() - j + 1 } else { 0 })
            + (if below.len() - j + 1 > 0 { below.len() - j + 1 } else { 0 }),
        interleave(above, below, vp, j).1.len() == interleave(above, below, vp, j).0.len(),
    decreases above.len() + below.len() + 1 - j,
{
    if !(j > above.len() && j > below.len()) {
        lemma_interleave_len(above, below, vp, j + 1);
    }
}

/// Exec form of `anchor_ok`.
fn anchor_ok_exec(arr: &Vec<usize>, vp: usize, m: u8, i: usize, shifted: u8) -> (r: bool)
    ensures
        r == anchor_ok(arr@, vp as nat, m, i as int, shifted),
{
    if i < arr.len() {
        if arr[i] < vp {
            shifted >= m
        } else if arr[i] > vp {
            shifted <= m
        } else {
            true
        }
    } else {
        true
    }
}

/// The mirror transformation (see `spec_octave`).
#[verifier::rlimit(30)]
fn mirror_octave(notes: Vec<u8>, arr: &Vec<usize>, vp: usize) -> (r: (Vec<u8>, Vec<usize>))
    requires
        all_midi(notes@),
        notes@.len() > 1,
    ensures
        (r.0@, r.1@) == spec_octave(OctaveMode::Mirror, notes@, arr@, vp as nat),
        all_midi(r.0@),
{
    let m = notes[0];
    let ports = arr.clone();
    let ghost dups = mirror_dups(notes@, arr@, vp as nat, 1);
    let mut out = notes.clone();
    let mut ports = ports;
    let mut i: usize = 1;
    while i < notes.len()
        invariant
            1 <= i <= notes@.len(),
            m == notes@[0],
            all_midi(notes@),
            ports@.len() >= arr@.len(),
            dups == mirror_dups(notes@, arr@, vp as nat, 1),
            out@ + mirror_dups(notes@, arr@, vp as nat, i as int).map_values(|e: (u8, int)| e.0)
                == notes@ + dups.map_values(|e: (u8, int)| e.0),
            ports@ + mirror_dups(notes@, arr@, vp as nat, i as int).map_values(
                |e: (u8, int)|
                    if e.1 < arr@.len() {
                        arr@[e.1]
                    } else {
                        e.1 as usize
                    },
            ) == arr@ + dups.map_values(
                |e: (u8, int)|
                    if e.1 < arr@.len() {
                        arr@[e.1]
                    } else {
                        e.1 as usize
                    },
            ),
            all_midi(out@),
        decreases notes@.len() - i,
    {
        let n = notes[i];
        let port: usize = if i < arr.len() {
            arr[i]
        } else {
            i
        };
        let ghost rest = mirror_dups(notes@, arr@, vp as nat, i + 1);
        let ghost o0 = out@;
        let ghost p0 = ports@;
        let ghost up: Seq<(u8, int)> = if n + 12 <= 127 && anchor_ok(arr@, vp as nat, m, i as int, (n + 12) as u8) {
            seq![((n + 12) as u8, i as int)]
        } else {
            Seq::empty()
        };
        let ghost down: Seq<(u8, int)> = if n >= 12 && anchor_ok(arr@, vp as nat, m, i as int, (n - 12) as u8) {
            seq![((n - 12) as u8, i as int)]
        } else {
            Seq::empty()
        };
        if n <= 115 && anchor_ok_exec(arr, vp, m, i, n + 12) {
            out.push(n + 12);
            ports.push(port);
        }
        if n >= 12 && anchor_ok_exec(arr, vp, m, i, n - 12) {
            out.push(n - 12);
            ports.push(port);
        }
        proof {
            let f0 = |e: (u8, int)| e.0;
            let f1 = |e: (u8, int)|
                if e.1 < arr@.len() {
                    arr@[e.1]
                } else {
                    e.1 as usize
                };
            assert(mirror_dups(notes@, arr@, vp as nat, i as int) == up + down + rest);
            assert(out@ =~= o0 + (up + down).map_values(f0));
            assert(ports@ =~= p0 + (up + down).map_values(f1));
            assert((up + down + rest).map_values(f0) =~= (up + down).map_values(f0) + rest.map_values(f0));
            assert((up + down + rest).map_values(f1) =~= (up + down).map_values(f1) + rest.map_values(f1));
            assert(out@ + rest.map_values(f0) =~= o0 + (up + down + rest).map_values(f0));
            assert(ports@ + rest.map_values(f1) =~= p0 + (up + down + rest).map_values(f1));
        }
        i = i + 1;
    }
    proof {
        assert(mirror_dups(notes@, arr@, vp as nat, i as int) =~= Seq::<(u8, int)>::empty());
        assert(out@ =~= notes@ + dups.map_values(|e: (u8, int)| e.0));
    }
    (out, ports)
}

/// Exec form of `spec_octave`.
fn apply_octave(mode: OctaveMode, notes: Vec<u8>, arr: &Vec<usize>, vp: usize) -> (r: (Vec<u8>, Vec<usize>))
    requires
        all_midi(notes@),
    ensures
        (r.0@, r.1@) == spec_octave(mode, notes@, arr@, vp as nat),
        all_midi(r.0@),
{
    let ports = arr.clone();
    if notes.len() <= 1 {
        return (notes, ports);
    }
    let m = notes[0];
    match mode {
        OctaveMode::NoShift => (notes, ports),
        OctaveMode::Spread => {
            let ghost target = spec_octave(mode, notes@, arr@, vp as nat).0;
            let mut out: Vec<u8> = vec![m];
            let mut i: usize = 1;
            while i < notes.len()
                invariant
                    1 <= i <= notes@.len(),
                    m == notes@[0],
                    all_midi(notes@),
                    target == spec_octave(OctaveMode::Spread, notes@, arr@, vp as nat).0,
                    target.len() == notes@.len(),
                    out@.len() == i,
                    forall|k: int| 0 <= k < i ==> #[trigger] out@[k] == target[k],
                decreases notes@.len() - i,
            {
                let n = notes[i];
                // From the eleventh voice on the shift passes the top note.
                let sh: u8 = if i >= 11 {
                    127
                } else {
                    let sum: u16 = n as u16 + 12 * (i as u16);
                    if sum > 127 {
                        127
                    } else {
                        sum as u8
                    }
                };
                if anchor_ok_exec(arr, vp, m, i, sh) {
                    out.push(sh);
                } else {
                    out.push(n);
                }
                i = i + 1;
            }
            assert(out@ =~= target);
            (out, ports)
        },
        OctaveMode::BassTrebleSplit => {
            let ghost target = spec_octave(mode, notes@, arr@, vp as nat).0;
            let mut out: Vec<u8> = vec![m];
            let mut i: usize = 1;
            while i < notes.len()
                invariant
                    1 <= i <= notes@.len(),
                    m == notes@[0],
                    all_midi(notes@),
                    target == spec_octave(OctaveMode::BassTrebleSplit, notes@, arr@, vp as nat).0,
                    target.len() == notes@.len(),
                    out@.len() == i,
                    forall|k: int| 0 <= k < i ==> #[trigger] out@[k] == target[k],
                decreases notes@.len() - i,
            {
                let n = notes[i];
                let sh: u8 = if n < m {
                    if n < 12 {
                        0
                    } else {
                        n - 12
                    }
                } else if n + 12 > 127 {
                    127
                } else {
                    n + 12
                };
                if anchor_ok_exec(arr, vp, m, i, sh) {
                    out.push(sh);
                } else {
                    out.push(n);
                }
                i = i + 1;
            }
            assert(out@ =~= target);
            (out, ports)
        },
        OctaveMode::Mirror => mirror_octave(notes, arr, vp),

    }
}

impl HarmonyEngine {
    /// One directed step of the current mode on chain slot `state_index`.
    fn harmonize_single_directed(&mut self, note: u8, state_index: usize, above: bool) -> (r: Vec<u8>)
        requires
            old(self).wf(),
            note <= MIDI_MAX,
        ensures
            final(self).wf(),
            is_voice_pair(r@, note),
            step_ok(old(self)@.mode, old(self)@.steps, note, state_index as int, above, r@, final(self)@.steps),
            final(self)@ == (EngineView { steps: final(self)@.steps, ..old(self)@ }),
    {
        match self.mode {
            HarmonyMode::ContraryMotion => self.contrary_step_at(note, state_index, above),
            HarmonyMode::StrictCounterpoint => self.counterpoint_step_at(note, state_index, above),
            _ => self.scale_step_mode(note, above),
        }
    }

    /// A step of a mode that only reads and updates the scale.
    fn scale_step_mode(&mut self, note: u8, above: bool) -> (r: Vec<u8>)
        requires
            old(self).wf(),
            note <= MIDI_MAX,
            old(self)@.mode != HarmonyMode::ContraryMotion,
            old(self)@.mode != HarmonyMode::StrictCounterpoint,
        ensures
            final(self).wf(),
            is_voice_pair(r@, note),
            step_ok(old(self)@.mode, old(self)@.steps, note, 0, above, r@, final(self)@.steps),
            forall|i: int| step_ok(old(self)@.mode, old(self)@.steps, note, 0, above, r@, final(self)@.steps)
                ==> #[trigger] step_ok(old(self)@.mode, old(self)@.steps, note, i, above, r@, final(self)@.steps),
            final(self)@ == (EngineView { steps: final(self)@.steps, ..old(self)@ }),
    {
        match self.mode {
            HarmonyMode::DiatonicThirds => modes::diatonic_thirds_directed(note, &mut self.scale, above),
            HarmonyMode::DiatonicFourths => modes::diatonic_fourths_directed(note, &mut self.scale, above),
            HarmonyMode::RandomBelow => modes::random_directed(note, &mut self.scale, above),
            HarmonyMode::RandomBelowNoSeconds => modes::random_no_seconds_directed(note, &mut self.scale, above),
            _ => modes::pass_through(note, &self.scale),
        }
    }

    /// A contrary-motion step on chain slot `state_index`.
    fn contrary_step_at(&mut self, note: u8, state_index: usize, above: bool) -> (r: Vec<u8>)
        requires
            old(self).wf(),
            note <= MIDI_MAX,
            old(self)@.mode == HarmonyMode::ContraryMotion,
        ensures
            final(self).wf(),
            is_voice_pair(r@, note),
            step_ok(old(self)@.mode, old(self)@.steps, note, state_index as int, above, r@, final(self)@.steps),
            final(self)@ == (EngineView { steps: final(self)@.steps, ..old(self)@ }),
    {
        if state_index < self.contrary_motion_states.len() {
            let ghost old_states = self.contrary_motion_states@;
            let mut st = self.contrary_motion_states.remove(state_index);
            let r = st.process_directed(&mut self.scale, note, above);
            self.contrary_motion_states.insert(state_index, st);
            proof {
                assert(self.contrary_motion_states@.map_values(|c: ContraryMotionState| c@)
                    =~= old_states.map_values(|c: ContraryMotionState| c@).update(state_index as int, st@));
            }
            r
        } else {
            modes::pass_through(note, &self.scale)
        }
    }

    /// A counterpoint step on chain slot `state_index`.
    fn counterpoint_step_at(&mut self, note: u8, state_index: usize, above: bool) -> (r: Vec<u8>)
        requires
            old(self).wf(),
            note <= MIDI_MAX,
            old(self)@.mode == HarmonyMode::StrictCounterpoint,
        ensures
            final(self).wf(),
            is_voice_pair(r@, note),
            step_ok(old(self)@.mode, old(self)@.steps, note, state_index as int, above, r@, final(self)@.steps),
            final(self)@ == (EngineView { steps: final(self)@.steps, ..old(self)@ }),
    {
        if state_index < self.counterpoint_states.len() {
            let ghost old_states = self.counterpoint_states@;
            let mut st = self.counterpoint_states.remove(state_index);
            let r = st.process_directed(&self.scale, note, above);
            self.counterpoint_states.insert(state_index, st);
            proof {
                assert(self.counterpoint_states@.map_values(|c: CounterpointState| c@)
                    =~= old_states.map_values(|c: CounterpointState| c@).update(state_index as int, st@));
            }
            r
        } else {
            modes::pass_through(note, &self.scale)
        }
    }

    /// Runs a chain of up to `count` directed steps from `note`, each step
    /// harmonizing the previous harmony, on slots from `start_index`; stops at
    /// the first step without a harmony. Returns the harmonies and the next
    /// free slot.
    fn chain(&mut self, note: u8, count: usize, start_index: usize, above: bool) -> (r: (Vec<u8>, usize))
        requires
            old(self).wf(),
            note <= MIDI_MAX,
            start_index + count <= usize::MAX,
        ensures
            final(self).wf(),
            chain_ok(
                old(self)@.mode,
                old(self)@.steps,
                note,
                start_index as int,
                count as nat,
                above,
                r.0@,
                final(self)@.steps,
                r.1 as int,
            ),
            r.0@.len() <= count,
            r.1 <= start_index + count,
            all_midi(r.0@),
            final(self)@ == (EngineView { steps: final(self)@.steps, ..old(self)@ }),
    {
        let ghost m = self@.mode;
        let ghost st0 = self@.steps;
        let ghost e0 = self@;
        let mut hs: Vec<u8> = Vec::new();
        let mut current = note;
        let mut idx = start_index;
        let mut remaining = count;
        loop
            invariant_except_break
                self.wf(),
                current <= MIDI_MAX,
                idx + remaining == start_index + count,
                start_index + count <= usize::MAX,
                hs@.len() + remaining == count,
                all_midi(hs@),
                m == e0.mode,
                self@ == (EngineView { steps: self@.steps, ..e0 }),
                forall|h: Seq<u8>, se: StepState, ie: int|
                    #[trigger] chain_ok(m, self@.steps, current, idx as int, remaining as nat, above, h, se, ie)
                        ==> chain_ok(m, st0, note, start_index as int, count as nat, above, hs@ + h, se, ie),
            ensures
                self.wf(),
                idx <= start_index + count,
                hs@.len() <= count,
                all_midi(hs@),
                self@ == (EngineView { steps: self@.steps, ..e0 }),
                chain_ok(m, st0, note, start_index as int, count as nat, above, hs@, self@.steps, idx as int),
            decreases remaining,
        {
            if remaining == 0 {
                proof {
                    assert(chain_ok(m, self@.steps, current, idx as int, 0, above, Seq::empty(), self@.steps, idx as int));
                    assert(hs@ + Seq::<u8>::empty() =~= hs@);
                }
                break;
            }
            let ghost st_before = self@.steps;
            let ghost cur_before = current;
            let ghost idx_before = idx as int;
            let ghost rem_before = remaining as nat;
            let ghost hs_before = hs@;
            let out = self.harmonize_single_directed(current, idx, above);
            idx = idx + 1;
            remaining = remaining - 1;
            if out.len() > 1 {
                let h = out[1];
                hs.push(h);
                current = h;
                proof {
                    assert forall|h2: Seq<u8>, se: StepState, ie: int|
                        #[trigger] chain_ok(m, self@.steps, current, idx as int, remaining as nat, above, h2, se, ie)
                            implies chain_ok(m, st0, note, start_index as int, count as nat, above, hs@ + h2, se, ie) by {
                        let full = seq![h] + h2;
                        assert(full.drop_first() =~= h2);
                        assert(step_ok(m, st_before, cur_before, idx_before, above, out@, self@.steps));
                        assert(chain_ok(m, st_before, cur_before, idx_before, rem_before, above, full, se, ie));
                        assert(hs_before + full =~= hs@ + h2);
                    }
                }
            } else {
                proof {
                    assert(step_ok(m, st_before, cur_before, idx_before, above, out@, self@.steps));
                    assert(chain_ok(m, st_before, cur_before, idx_before, rem_before, above, Seq::empty(), self@.steps, idx as int));
                    assert(hs_before + Seq::<u8>::empty() =~= hs@);
                }
                break;
            }
        }
        (hs, idx)
    }
}

/// The output and state after harmonizing once chains `above` and `below`
/// have been produced: flattening, voice leading (when enabled and there is
/// a harmony), octave transformation and port assignment.
pub open spec fn harmonize_output(old: EngineView, note: u8, above: Seq<u8>, below: Seq<u8>, r: Seq<u8>, new: EngineView) -> bool {
    let vp = old.voice_position;
    let (fl, arr_i) = spec_flatten(note, above, below, vp as int);
    let arr: Seq<usize> = arr_i.map_values(|x: int| x as usize);
    &&& new.last_arrangement == arr
    &&& new == (EngineView {
        steps: new.steps,
        last_arrangement: new.last_arrangement,
        last_port_map: new.last_port_map,
        voice_leading: new.voice_leading,
        ..old
    })
    &&& if old.voice_leading.enabled && fl.len() > 1 {
        exists|rv: Seq<u8>, anc: VoiceAnchor|
            #[trigger] spec_revoiced(
                harmony_pcs(fl),
                old.voice_leading.previous_voicing,
                old.voice_leading.registers,
                old.voice_leading.style_rules,
                Some(&anc),
                rv,
            ) && anc.midi == note && anc.arrangement_pos == vp && anc.harmony_arrangement_positions@
                == arr.drop_first() && new.voice_leading == (VoiceLeadingView {
                previous_voicing: Some(vl_apply(fl, rv)),
                ..old.voice_leading
            }) && (r, new.last_port_map) == spec_octave(old.octave_mode, vl_apply(fl, rv), arr, vp)
    } else {
        &&& new.voice_leading == old.voice_leading
        &&& (r, new.last_port_map) == spec_octave(old.octave_mode, fl, arr, vp)
    }
}

/// What `harmonize` produces: the note alone in pass-through mode or with a
/// single voice; otherwise the chain above the user (one voice per position
/// above), then the chain below, continuing on the next chain slots, turned
/// into the output by `harmonize_output`.
pub open spec fn harmonize_post(old: EngineView, note: u8, r: Seq<u8>, new: EngineView) -> bool {
    if old.mode == HarmonyMode::PassThrough || old.voice_count <= 1 {
        &&& r == seq![note]
        &&& new == (EngineView { last_arrangement: seq![0usize], last_port_map: seq![0usize], ..old })
    } else {
        exists|a: Seq<u8>, b: Seq<u8>, st1: StepState, i1: int, i2: int|
            #[trigger] chain_ok(old.mode, old.steps, note, 0, old.voice_position, true, a, st1, i1) && #[trigger] chain_ok(
                old.mode,
                st1,
                note,
                i1,
                (old.voice_count - 1 - old.voice_position) as nat,
                false,
                b,
                new.steps,
                i2,
            ) && harmonize_output(old, note, a, b, r, new)
    }
}

/// A chain yields at most one harmony per step.
proof fn lemma_chain_len(
    m: HarmonyMode,
    st: StepState,
    note: u8,
    idx: int,
    count: nat,
    above: bool,
    hs: Seq<u8>,
    st_end: StepState,
    idx_end: int,
)
    requires
        chain_ok(m, st, note, idx, count, above, hs, st_end, idx_end),
    ensures
        hs.len() <= count,
    decreases count,
{
    if count > 0 {
        let (o, st1) = choose|o: Seq<u8>, st1: StepState|
            #[trigger] step_ok(m, st, note, idx, above, o, st1) && if o.len() > 1 {
                &&& hs.len() > 0
                &&& hs[0] == o[1]
                &&& chain_ok(m, st1, o[1], idx + 1, (count - 1) as nat, above, hs.drop_first(), st_end, idx_end)
            } else {
                hs == Seq::<u8>::empty() && st_end == st1 && idx_end == idx + 1
            };
        if o.len() > 1 {
            lemma_chain_len(m, st1, o[1], idx + 1, (count - 1) as nat, above, hs.drop_first(), st_end, idx_end);
        }
    }
}

/// The interleaved voices from distance `j` on: one arrangement position
/// per voice, each on its chain's side of `vp`, at most as far as the
/// chain is long.
proof fn lemma_interleave(above: Seq<u8>, below: Seq<u8>, vp: int, j: int)
    requires
        j >= 1,
    ensures
        interleave(above, below, vp, j).0.len() == interleave(above, below, vp, j).1.len(),
        interleave(above, below, vp, j).0.len() == (if above.len() >= j { above.len() - j + 1 } else { 0 }) + (
        if below.len() >= j { below.len() - j + 1 } else { 0 }),
        forall|k: int|
            0 <= k < interleave(above, below, vp, j).1.len() ==> {
                let q = #[trigger] interleave(above, below, vp, j).1[k];
                (vp - above.len() <= q < vp) || (vp < q <= vp + below.len())
            },
    decreases above.len() + below.len() + 1 - j,
{
    if !(j > above.len() && j > below.len()) {
        lemma_interleave(above, below, vp, j + 1);
        let (n, p) = interleave(above, below, vp, j + 1);
        let pa: Seq<int> = if j <= above.len() { seq![vp - j] } else { Seq::empty() };
        let pb: Seq<int> = if j <= below.len() { seq![vp + j] } else { Seq::empty() };
        let all = pa + pb + p;
        assert(interleave(above, below, vp, j).1 == all);
        assert forall|k: int| 0 <= k < all.len() implies (vp - above.len() <= #[trigger] all[k] < vp) || (vp
            < all[k] <= vp + below.len()) by {
            if k >= pa.len() + pb.len() {
                assert(all[k] == p[k - pa.len() - pb.len()]);
            }
        }
    }
}

/// Mirror duplicates of voices `i..`: each copies a harmony voice `v`
/// (`1 <= v`, `i <= v`) an octave above or below, within the MIDI range and
/// on the voice's side of the user; at most two per voice.
proof fn lemma_mirror_dups(notes: Seq<u8>, arr: Seq<usize>, vp: nat, i: int)
    requires
        i >= 1,
    ensures
        mirror_dups(notes, arr, vp, i).len() <= 2 * (if notes.len() > i { notes.len() - i } else { 0 }),
        forall|k: int|
            0 <= k < mirror_dups(notes, arr, vp, i).len() ==> {
                let e = #[trigger] mirror_dups(notes, arr, vp, i)[k];
                &&& i <= e.1 < notes.len()
                &&& (e.0 == notes[e.1] + 12 || e.0 + 12 == notes[e.1])
                &&& anchor_ok(arr, vp, notes[0], e.1, e.0)
            },
    decreases notes.len() - i,
{
    if i < notes.len() {
        lemma_mirror_dups(notes, arr, vp, i + 1);
        let n = notes[i];
        let up: Seq<(u8, int)> = if n + 12 <= 127 && anchor_ok(arr, vp, notes[0], i, (n + 12) as u8) {
            seq![((n + 12) as u8, i)]
        } else {
            Seq::empty()
        };
        let down: Seq<(u8, int)> = if n >= 12 && anchor_ok(arr, vp, notes[0], i, (n - 12) as u8) {
            seq![((n - 12) as u8, i)]
        } else {
            Seq::empty()
        };
        let rest = mirror_dups(notes, arr, vp, i + 1);
        let d = up + down + rest;
        assert(mirror_dups(notes, arr, vp, i) == d);
        assert forall|k: int| 0 <= k < d.len() implies {
            let e = #[trigger] d[k];
            &&& i <= e.1 < notes.len()
            &&& (e.0 == notes[e.1] + 12 || e.0 + 12 == notes[e.1])
            &&& anchor_ok(arr, vp, notes[0], e.1, e.0)
        } by {
            if k >= up.len() + down.len() {
                assert(d[k] == rest[k - up.len() - down.len()]);
            }
        }
    }
}

/// Mirror mode keeps the output and appends duplicates: each is a harmony
/// voice (index `v >= 1`) moved an octave up or down, within the MIDI range
/// and on that voice's side of the user, routed to that voice's port; at
/// most two per harmony voice, and one port per note.
pub proof fn lemma_mirror_octave(notes: Seq<u8>, arr: Seq<usize>, vp: nat)
    requires
        notes.len() > 1,
        arr.len() == notes.len(),
    ensures
        ({
            let (out, ports) = spec_octave(OctaveMode::Mirror, notes, arr, vp);
            &&& out.len() == ports.len()
            &&& out.subrange(0, notes.len() as int) == notes
            &&& ports.subrange(0, arr.len() as int) == arr
            &&& out.len() <= 3 * notes.len() - 2
            &&& forall|k: int|
                notes.len() <= k < out.len() ==> exists|v: int|
                    1 <= v < notes.len() && (#[trigger] out[k] == notes[v] + 12 || out[k] + 12 == notes[v])
                        && anchor_ok(arr, vp, notes[0], v, out[k]) && ports[k] == arr[v]
        }),
{
    let d = mirror_dups(notes, arr, vp, 1);
    lemma_mirror_dups(notes, arr, vp, 1);
    let (out, ports) = spec_octave(OctaveMode::Mirror, notes, arr, vp);
    let dn = d.map_values(|e: (u8, int)| e.0);
    let dp = d.map_values(|e: (u8, int)| if e.1 < arr.len() { arr[e.1] } else { e.1 as usize });
    assert(out == notes + dn);
    assert(ports == arr + dp);
    assert(out.subrange(0, notes.len() as int) =~= notes);
    assert(ports.subrange(0, arr.len() as int) =~= arr);
    assert forall|k: int| notes.len() <= k < out.len() implies exists|v: int|
        1 <= v < notes.len() && (#[trigger] out[k] == notes[v] + 12 || out[k] + 12 == notes[v]) && anchor_ok(
            arr,
            vp,
            notes[0],
            v,
            out[k],
        ) && ports[k] == arr[v] by {
        let e = d[k - notes.len()];
        assert(out[k] == e.0);
        assert(ports[k] == arr[e.1]);
    }
}

/// The octave transformation never moves the melody (index 0, on the
/// user's port); without an octave mode it changes nothing; outside mirror
/// mode it keeps the number of notes and the ports. Each port of the result
/// is the port of one of the output's voices, one per note (see
/// `lemma_mirror_octave` for what mirror mode appends).
pub proof fn lemma_octave_ports(mode: OctaveMode, notes: Seq<u8>, arr: Seq<usize>, vp: nat)
    requires
        arr.len() == notes.len(),
    ensures
        spec_octave(mode, notes, arr, vp).0.len() == spec_octave(mode, notes, arr, vp).1.len(),
        notes.len() > 0 ==> spec_octave(mode, notes, arr, vp).0[0] == notes[0]
            && spec_octave(mode, notes, arr, vp).1[0] == arr[0],
        mode != OctaveMode::Mirror ==> spec_octave(mode, notes, arr, vp).0.len() == notes.len()
            && spec_octave(mode, notes, arr, vp).1 == arr,
        mode == OctaveMode::NoShift ==> spec_octave(mode, notes, arr, vp) == (notes, arr),
        forall|k: int|
            0 <= k < spec_octave(mode, notes, arr, vp).1.len() ==> arr.contains(
                #[trigger] spec_octave(mode, notes, arr, vp).1[k],
            ),
{
    let ports = spec_octave(mode, notes, arr, vp).1;
    if notes.len() > 1 && mode == OctaveMode::Mirror {
        lemma_mirror_octave(notes, arr, vp);
        let out = spec_octave(mode, notes, arr, vp).0;
        assert(out.subrange(0, notes.len() as int)[0] == out[0]);
        assert(ports.subrange(0, arr.len() as int)[0] == ports[0]);
        assert forall|k: int| 0 <= k < ports.len() implies arr.contains(#[trigger] ports[k]) by {
            if k < arr.len() {
                assert(ports.subrange(0, arr.len() as int)[k] == ports[k]);
                assert(ports[k] == arr[k]);
            } else {
                assert(out[k] == out[k]);
                let v = choose|v: int|
                    1 <= v < notes.len() && (#[trigger] out[k] == notes[v] + 12 || out[k] + 12 == notes[v])
                        && anchor_ok(arr, vp, notes[0], v, out[k]) && ports[k] == arr[v];
                assert(0 <= v < arr.len() && ports[k] == arr[v]);
            }
        }
    } else {
        assert(ports == arr);
        assert(spec_octave(mode, notes, arr, vp).0.len() == notes.len());
        assert forall|k: int| 0 <= k < ports.len() implies arr.contains(#[trigger] ports[k]) by {
            assert(ports[k] == arr[k]);
        }
    }
}

/// After a harmonization, the port map has one entry per output note, and
/// every entry is an arrangement position of the engine's voices (below
/// the voice count). In pass-through mode or with one voice the output is
/// the note alone on port 0; otherwise the first port is the user's
/// position, and without mirroring there are at most as many notes as
/// voices.
#[verifier::spinoff_prover]
#[verifier::rlimit(60)]
pub proof fn lemma_port_map_bounds(old: EngineView, note: u8, r: Seq<u8>, new: EngineView)
    requires
        old.voice_position < old.voice_count <= usize::MAX,
        harmonize_post(old, note, r, new),
    ensures
        new.last_port_map.len() == r.len(),
        forall|k: int| 0 <= k < new.last_port_map.len() ==> #[trigger] new.last_port_map[k] < old.voice_count,
        r[0] == note,
        old.mode == HarmonyMode::PassThrough || old.voice_count <= 1 ==> r == seq![note] && new.last_port_map
            == seq![0usize],
        !(old.mode == HarmonyMode::PassThrough || old.voice_count <= 1) ==> new.last_port_map[0]
            == old.voice_position && (old.octave_mode != OctaveMode::Mirror ==> r.len() <= old.voice_count),
{
    if !(old.mode == HarmonyMode::PassThrough || old.voice_count <= 1) {
        let (a, b, st1, i1, i2) = choose|a: Seq<u8>, b: Seq<u8>, st1: StepState, i1: int, i2: int|
            #[trigger] chain_ok(old.mode, old.steps, note, 0, old.voice_position, true, a, st1, i1) && #[trigger] chain_ok(
                old.mode,
                st1,
                note,
                i1,
                (old.voice_count - 1 - old.voice_position) as nat,
                false,
                b,
                new.steps,
                i2,
            ) && harmonize_output(old, note, a, b, r, new);
        lemma_chain_len(old.mode, old.steps, note, 0, old.voice_position, true, a, st1, i1);
        lemma_chain_len(
            old.mode,
            st1,
            note,
            i1,
            (old.voice_count - 1 - old.voice_position) as nat,
            false,
            b,
            new.steps,
            i2,
        );
        let vp = old.voice_position;
        lemma_interleave(a, b, vp as int, 1);
        let (fl, arr_i) = spec_flatten(note, a, b, vp as int);
        let arr: Seq<usize> = arr_i.map_values(|x: int| x as usize);
        assert(a.len() <= vp);
        assert(b.len() <= old.voice_count - 1 - vp);
        assert(interleave(a, b, vp as int, 1).0.len() == a.len() + b.len());
        assert(fl.len() == 1 + a.len() + b.len());
        assert(fl.len() == arr.len() && fl.len() <= old.voice_count);
        assert(arr[0] == vp);
        assert(fl[0] == note);
        assert forall|v: int| 0 <= v < arr.len() implies #[trigger] arr[v] < old.voice_count by {
            if v > 0 {
                let q = interleave(a, b, vp as int, 1).1[v - 1];
                assert(arr_i[v] == q);
            }
        }
        if old.voice_leading.enabled && fl.len() > 1 {
            let (rv, anc) = choose|rv: Seq<u8>, anc: VoiceAnchor|
                #[trigger] spec_revoiced(
                    harmony_pcs(fl),
                    old.voice_leading.previous_voicing,
                    old.voice_leading.registers,
                    old.voice_leading.style_rules,
                    Some(&anc),
                    rv,
                ) && anc.midi == note && anc.arrangement_pos == vp && anc.harmony_arrangement_positions@
                    == arr.drop_first() && new.voice_leading == (VoiceLeadingView {
                    previous_voicing: Some(vl_apply(fl, rv)),
                    ..old.voice_leading
                }) && (r, new.last_port_map) == spec_octave(old.octave_mode, vl_apply(fl, rv), arr, vp);
            lemma_octave_ports(old.octave_mode, vl_apply(fl, rv), arr, vp);
        } else {
            lemma_octave_ports(old.octave_mode, fl, arr, vp);
        }
        assert forall|k: int| 0 <= k < new.last_port_map.len() implies #[trigger] new.last_port_map[k]
            < old.voice_count by {
            assert(arr.contains(new.last_port_map[k]));
            let v = choose|v: int| 0 <= v < arr.len() && arr[v] == new.last_port_map[k];
            assert(arr[v] < old.voice_count);
        }
    }
}

/// The voice a chain harmony `k` is built on: the user's note for the
/// first, the previous harmony otherwise.
pub open spec fn chain_source(note: u8, hs: Seq<u8>, k: int) -> u8 {
    if k == 0 {
        note
    } else {
        hs[k - 1]
    }
}

/// In the parallel-thirds and parallel-fourths modes each harmony of a
/// chain whose source voice is in the key is that voice transposed
/// diatonically by exactly 2 (thirds) or 3 (fourths) scale degrees, upward
/// above the user and downward below; the key and mode stay as they were.
#[verifier::spinoff_prover]
#[verifier::rlimit(60)]
pub proof fn lemma_parallel_chain_interval(
    m: HarmonyMode,
    st: StepState,
    note: u8,
    idx: int,
    count: nat,
    above: bool,
    hs: Seq<u8>,
    st_end: StepState,
    idx_end: int,
)
    requires
        m == HarmonyMode::DiatonicThirds || m == HarmonyMode::DiatonicFourths,
        chain_ok(m, st, note, idx, count, above, hs, st_end, idx_end),
    ensures
        st_end.scale.tonic == st.scale.tonic,
        st_end.scale.mode == st.scale.mode,
        forall|k: int|
            0 <= k < hs.len() && in_scale(st.scale.tonic, st.scale.mode, chain_source(note, hs, k)) ==> Some(
                #[trigger] hs[k],
            ) == spec_transpose_diatonic(
                st.scale.tonic,
                st.scale.mode,
                chain_source(note, hs, k),
                if m == HarmonyMode::DiatonicThirds {
                    if above { 2int } else { -2int }
                } else {
                    if above { 3int } else { -3int }
                },
            ),
    decreases count,
{
    if count > 0 {
        let (o, st1) = choose|o: Seq<u8>, st1: StepState|
            #[trigger] step_ok(m, st, note, idx, above, o, st1) && if o.len() > 1 {
                &&& hs.len() > 0
                &&& hs[0] == o[1]
                &&& chain_ok(m, st1, o[1], idx + 1, (count - 1) as nat, above, hs.drop_first(), st_end, idx_end)
            } else {
                hs == Seq::<u8>::empty() && st_end == st1 && idx_end == idx + 1
            };
        let d: int = if m == HarmonyMode::DiatonicThirds {
            if above { 2int } else { -2int }
        } else {
            if above { 3int } else { -3int }
        };
        assert(!is_random_mode(m));
        assert((o, st1) == spec_step(m, st, note, idx, above));
        assert((o, st1) == scale_step(st, note, d, above));
        let h = st.scale.smart_harmony(note, d, above).0;
        assert(o == modes::spec_pair(note, h));
        assert(st1.scale == st.scale.with_borrowed(st.scale.smart_harmony(note, d, above).1));
        assert(st1.scale.tonic == st.scale.tonic && st1.scale.mode == st.scale.mode);
        if o.len() > 1 {
            assert(h is Some && o[1] == h->0);
            lemma_parallel_chain_interval(
                m,
                st1,
                o[1],
                idx + 1,
                (count - 1) as nat,
                above,
                hs.drop_first(),
                st_end,
                idx_end,
            );
            assert forall|k: int|
                0 <= k < hs.len() && in_scale(st.scale.tonic, st.scale.mode, chain_source(note, hs, k)) implies Some(
                #[trigger] hs[k],
            ) == spec_transpose_diatonic(st.scale.tonic, st.scale.mode, chain_source(note, hs, k), d) by {
                if k > 0 {
                    assert(hs.drop_first()[k - 1] == hs[k]);
                    assert(chain_source(o[1], hs.drop_first(), k - 1) == chain_source(note, hs, k));
                }
            }
        }
    }
}

/// The notes a Note-Off releases: the note, then the harmonies its Note-On
/// recorded, if any.
pub open spec fn spec_release(active: Map<u8, Seq<u8>>, note: u8) -> Seq<u8> {
    if active.contains_key(note) {
        seq![note] + active[note]
    } else {
        seq![note]
    }
}

/// The port map restored by a Note-Off.
pub open spec fn spec_release_ports(ports: Map<u8, Seq<usize>>, note: u8) -> Seq<usize> {
    if ports.contains_key(note) {
        ports[note]
    } else {
        seq![0usize]
    }
}

/// What a Note-On records for its Note-Off (only when it produced a harmony).
pub open spec fn spec_record<V>(m: Map<u8, V>, note: u8, produced_harmony: bool, v: V) -> Map<u8, V> {
    if produced_harmony {
        m.insert(note, v)
    } else {
        m
    }
}

/// The state after a Note-On that produced `r`: harmonizing (ending in some
/// state `mid`), then keeping the borrowed mode for display and recording the
/// harmony notes and port map for the Note-Off.
pub open spec fn note_on_post(old: EngineView, note: u8, r: Seq<u8>, new: EngineView) -> bool {
    exists|mid: EngineView|
        #[trigger] harmonize_post(old, note, r, mid) && new == (EngineView {
            last_borrowed_from: mid.steps.scale.last_borrowed_from,
            active_notes: spec_record(old.active_notes, note, r.len() > 1, r.drop_first()),
            active_port_maps: spec_record(old.active_port_maps, note, r.len() > 1, mid.last_port_map),
            ..mid
        })
}

/// The state after a Note-Off: the note's records forgotten and its port
/// map restored.
pub open spec fn after_note_off(old: EngineView, note: u8) -> EngineView {
    EngineView {
        active_notes: old.active_notes.remove(note),
        active_port_maps: old.active_port_maps.remove(note),
        last_port_map: spec_release_ports(old.active_port_maps, note),
        ..old
    }
}

/// A Note-Off releases exactly the notes (and restores exactly the port
/// map) of the Note-On before it, whenever that Note-On produced a harmony
/// or the note was not held already.
pub proof fn lemma_note_off_releases_note_on(
    active: Map<u8, Seq<u8>>,
    ports: Map<u8, Seq<usize>>,
    note: u8,
    on: Seq<u8>,
    on_ports: Seq<usize>,
)
    requires
        on.len() >= 1,
        on[0] == note,
        on.len() > 1 || (!active.contains_key(note) && !ports.contains_key(note)),
    ensures
        spec_release(spec_record(active, note, on.len() > 1, on.drop_first()), note) == on,
        on.len() > 1 ==> spec_release_ports(spec_record(ports, note, on.len() > 1, on_ports), note) == on_ports,
        !spec_record(active, note, on.len() > 1, on.drop_first()).remove(note).contains_key(note),
{
    if on.len() > 1 {
        assert(seq![note] + on.drop_first() =~= on);
    } else {
        assert(on =~= seq![note]);
    }
}

impl HarmonyEngine {
    /// Harmonizes a single note with the current mode.
    ///
    /// The result starts with the input note. In pass-through mode or with
    /// a single voice that is all. Otherwise harmony voices are chained
    /// outward from the user's position (each harmonizing the previous one):
    /// first upward through the positions above the user, then downward
    /// through those below, each chain stopping at the first step without a
    /// harmony. The voices are ordered closest first (above before below),
    /// re-voiced when voice leading is on, and octave-transformed; the port
    /// of each note is recorded in the last port map. Use the Note-On and
    /// Note-Off entry points to pair releases with presses.
    #[verifier::rlimit(60)]
    pub fn harmonize(&mut self, note: u8) -> (r: Vec<u8>)
        requires
            old(self).wf(),
            note <= MIDI_MAX,
        ensures
            final(self).wf(),
            harmonize_post(old(self)@, note, r@, final(self)@),
            r@.len() >= 1,
            r@[0] == note,
            all_midi(r@),
    {
        if self.mode == HarmonyMode::PassThrough || self.voice_count <= 1 {
            self.last_arrangement_indices = vec![0];
            self.last_port_map = vec![0];
            let r = vec![note];
            proof {
                assert(r@ =~= seq![note]);
                assert(self@.last_arrangement =~= seq![0usize]);
                assert(self@.last_port_map =~= seq![0usize]);
            }
            return r;
        }
        let ghost e0 = self@;
        let vp = self.voice_position;
        let vc = self.voice_count;
        let (above, i1) = self.chain(note, vp, 0, true);
        let ghost st1 = self@.steps;
        let (below, i2) = self.chain(note, vc - 1 - vp, i1, false);
        let (fl, arr) = flatten_voices(note, &above, &below, vp);
        proof {
            let (f, ai) = spec_flatten(note, above@, below@, vp as int);
            assert(arr@ =~= ai.map_values(|x: int| x as usize));
            lemma_flatten_midi(note, above@, below@, vp as int);
        }
        self.last_arrangement_indices = arr.clone();
        let fl = self.apply_voice_leading(fl, &arr, note);
        let (out, ports) = apply_octave(self.octave_mode, fl, &arr, vp);
        self.last_port_map = ports;
        proof {
            assert(chain_ok(e0.mode, e0.steps, note, 0, e0.voice_position, true, above@, st1, i1 as int));
            assert(chain_ok(
                e0.mode,
                st1,
                note,
                i1 as int,
                (e0.voice_count - 1 - e0.voice_position) as nat,
                false,
                below@,
                self@.steps,
                i2 as int,
            ));
            assert(self@.last_arrangement == spec_flatten(note, above@, below@, vp as int).1.map_values(|x: int| x as usize));
            assert(harmonize_output(e0, note, above@, below@, out@, self@));
        }
        out
    }
}

impl HarmonyEngine {
    /// Re-voices the harmony voices of an output when voice leading is on
    /// and there is a harmony, remembering the result as the previous voicing.
    fn apply_voice_leading(&mut self, fl: Vec<u8>, arr: &Vec<usize>, note: u8) -> (r: Vec<u8>)
        requires
            old(self).wf(),
            fl@.len() == arr@.len(),
            fl@.len() >= 1,
            fl@[0] == note,
            all_midi(fl@),
            note <= MIDI_MAX,
        ensures
            final(self).wf(),
            all_midi(r@),
            r@.len() == fl@.len(),
            r@[0] == note,
            final(self)@ == (EngineView { voice_leading: final(self)@.voice_leading, ..old(self)@ }),
            if old(self)@.voice_leading.enabled && fl@.len() > 1 {
                exists|rv: Seq<u8>, anc: VoiceAnchor|
                    #[trigger] spec_revoiced(
                        harmony_pcs(fl@),
                        old(self)@.voice_leading.previous_voicing,
                        old(self)@.voice_leading.registers,
                        old(self)@.voice_leading.style_rules,
                        Some(&anc),
                        rv,
                    ) && anc.midi == note && anc.arrangement_pos == old(self)@.voice_position
                        && anc.harmony_arrangement_positions@ == arr@.drop_first() && final(self)@.voice_leading == (
                    VoiceLeadingView { previous_voicing: Some(vl_apply(fl@, rv)), ..old(self)@.voice_leading })
                        && r@ == vl_apply(fl@, rv)
            } else {
                r@ == fl@ && final(self)@ == old(self)@
            },
    {
        let vp = self.voice_position;
        let ghost e0 = self@;
        let ghost fl0 = fl@;
        let mut fl = fl;
        if self.voice_leading.enabled && fl.len() > 1 {
            let mut pcs: Vec<u8> = Vec::new();
            let mut k: usize = 1;
            while k < fl.len()
                invariant
                    1 <= k <= fl@.len(),
                    pcs@ == fl@.subrange(1, k as int).map_values(|n: u8| n % 12),
                decreases fl@.len() - k,
            {
                pcs.push(fl[k] % 12);
                k = k + 1;
                assert(pcs@ =~= fl@.subrange(1, k as int).map_values(|n: u8| n % 12));
            }
            assert(fl@.subrange(1, fl@.len() as int) =~= fl@.drop_first());
            let mut positions: Vec<usize> = Vec::new();
            let mut k: usize = 1;
            while k < arr.len()
                invariant
                    1 <= k <= arr@.len(),
                    positions@ == arr@.subrange(1, k as int),
                decreases arr@.len() - k,
            {
                positions.push(arr[k]);
                k = k + 1;
                assert(positions@ =~= arr@.subrange(1, k as int));
            }
            assert(arr@.subrange(1, arr@.len() as int) =~= arr@.drop_first());
            let anchor = VoiceAnchor { midi: note, arrangement_pos: vp, harmony_arrangement_positions: positions };
            let prev_ref: Option<&[u8]> = match &self.voice_leading.previous_voicing {
                Some(v) => Some(v.as_slice()),
                None => None,
            };
            let rv = revoice_chord(
                pcs.as_slice(),
                prev_ref,
                self.voice_leading.registers.as_slice(),
                &self.voice_leading.style_rules,
                Some(&anchor),
            );
            let mut k: usize = 0;
            while k < rv.len()
                invariant
                    k <= rv@.len(),
                    fl@.len() == fl0.len(),
                    all_midi(fl0),
                    forall|t: int|
                        0 <= t < fl0.len() ==> #[trigger] fl@[t] == (if t >= 1 && t - 1 < k && rv@[t - 1] <= 127 {
                            rv@[t - 1]
                        } else {
                            fl0[t]
                        }),
                decreases rv@.len() - k,
            {
                if k + 1 < fl.len() && rv[k] <= 127 {
                    fl.set(k + 1, rv[k]);
                }
                k = k + 1;
            }
            proof {
                assert(fl@ =~= vl_apply(fl0, rv@));
                assert(all_midi(fl@));
            }
            let copy = copy_notes(&fl);
            self.voice_leading.previous_voicing = Some(copy);
            proof {
                assert(fl0[0] == fl@[0]);
                assert(spec_revoiced(
                    harmony_pcs(fl0),
                    e0.voice_leading.previous_voicing,
                    e0.voice_leading.registers,
                    e0.voice_leading.style_rules,
                    Some(&anchor),
                    rv@,
                ));
            }
        }
        fl
    }
}

/// A copy of a note sequence.
fn copy_notes(v: &Vec<u8>) -> (r: Vec<u8>)
    ensures
        r@ == v@,
{
    let mut r: Vec<u8> = Vec::new();
    let mut i: usize = 0;
    while i < v.len()
        invariant
            i <= v@.len(),
            r@ == v@.subrange(0, i as int),
        decreases v@.len() - i,
    {
        r.push(v[i]);
        i = i + 1;
        assert(r@ =~= v@.subrange(0, i as int));
    }
    assert(v@.subrange(0, v@.len() as int) =~= v@);
    r
}

/// Flattening keeps every note within the MIDI range.
proof fn lemma_flatten_midi(note: u8, above: Seq<u8>, below: Seq<u8>, vp: int)
    requires
        note <= 127,
        all_midi(above),
        all_midi(below),
    ensures
        all_midi(spec_flatten(note, above, below, vp).0),
        spec_flatten(note, above, below, vp).0[0] == note,
{
    lemma_interleave_midi(above, below, vp, 1);
    let (n, p) = interleave(above, below, vp, 1);
    assert forall|i: int| 0 <= i < (seq![note] + n).len() implies #[trigger] (seq![note] + n)[i] <= 127 by {
        if i > 0 {
            assert((seq![note] + n)[i] == n[i - 1]);
        }
    }
}

/// Interleaving keeps every note within the MIDI range.
proof fn lemma_interleave_midi(above: Seq<u8>, below: Seq<u8>, vp: int, j: int)
    requires
        all_midi(above),
        all_midi(below),
    ensures
        all_midi(interleave(above, below, vp, j).0),
    decreases above.len() + below.len() + 1 - j,
{
    if !(j < 1 || (j > above.len() && j > below.len())) {
        lemma_interleave_midi(above, below, vp, j + 1);
        let (n, p) = interleave(above, below, vp, j + 1);
        let na: Seq<u8> = if j <= above.len() { seq![above[j - 1]] } else { Seq::empty() };
        let nb: Seq<u8> = if j <= below.len() { seq![below[j - 1]] } else { Seq::empty() };
        assert forall|i: int| 0 <= i < (na + nb + n).len() implies #[trigger] (na + nb + n)[i] <= 127 by {
            if i < na.len() {
            } else if i < na.len() + nb.len() {
                assert((na + nb + n)[i] == nb[i - na.len()]);
            } else {
                assert((na + nb + n)[i] == n[i - na.len() - nb.len()]);
            }
        }
    }
}

impl HarmonyEngine {
    /// Harmonizes a Note-On and records what it produced so that the
    /// matching Note-Off releases the same notes.
    ///
    /// Returns the notes to send: the input first, harmony notes after. The
    /// harmony notes and the port map are recorded for the note when there
    /// is at least one harmony note; the mode the harmony was borrowed from
    /// is kept for display.
    pub fn harmonize_note_on(&mut self, note: u8) -> (r: Vec<u8>)
        requires
            old(self).wf(),
            note <= MIDI_MAX,
        ensures
            final(self).wf(),
            r@.len() >= 1,
            r@[0] == note,
            all_midi(r@),
            note_on_post(old(self)@, note, r@, final(self)@),
    {
        let ghost e0 = self@;
        let result = self.harmonize(note);
        let ghost mid = self@;
        self.last_borrowed_from = self.scale.last_borrowed_from();
        if result.len() > 1 {
            let mut harmonies: Vec<u8> = Vec::new();
            let mut k: usize = 1;
            while k < result.len()
                invariant
                    1 <= k <= result@.len(),
                    harmonies@ == result@.subrange(1, k as int),
                decreases result@.len() - k,
            {
                harmonies.push(result[k]);
                k = k + 1;
                assert(harmonies@ =~= result@.subrange(1, k as int));
            }
            assert(result@.subrange(1, result@.len() as int) =~= result@.drop_first());
            let ports = self.last_port_map.clone();
            proof {
                assert(ports@ == self.last_port_map@) by {
                    assert(ports@ =~= self.last_port_map@);
                }
            }
            self.active_notes.insert(note, harmonies);
            self.active_port_maps.insert(note, ports);
            proof {
                assert(self@.active_notes =~= e0.active_notes.insert(note, result@.drop_first()));
                assert(self@.active_port_maps =~= e0.active_port_maps.insert(note, mid.last_port_map));
            }
        }
        proof {
            assert(harmonize_post(e0, note, result@, mid));
        }
        result
    }

    /// Returns the notes to release for a Note-Off: the input note, then the
    /// harmony notes recorded by its Note-On (if any); restores the port map
    /// recorded with them (or a single port 0) and forgets both.
    pub fn harmonize_note_off(&mut self, note: u8) -> (r: Vec<u8>)
        requires
            old(self).wf(),
        ensures
            final(self).wf(),
            r@ == spec_release(old(self)@.active_notes, note),
            final(self)@ == after_note_off(old(self)@, note),
    {
        let ghost e0 = self@;
        match self.active_port_maps.remove(&note) {
            Some(port_map) => {
                self.last_port_map = port_map;
            },
            None => {
                self.last_port_map = vec![0];
                assert(self.last_port_map@ =~= seq![0usize]);
            },
        }
        let r = match self.active_notes.remove(&note) {
            Some(harmonies) => {
                let mut r: Vec<u8> = vec![note];
                let mut k: usize = 0;
                while k < harmonies.len()
                    invariant
                        k <= harmonies@.len(),
                        r@ == seq![note] + harmonies@.subrange(0, k as int),
                    decreases harmonies@.len() - k,
                {
                    r.push(harmonies[k]);
                    k = k + 1;
                    assert(r@ =~= seq![note] + harmonies@.subrange(0, k as int));
                }
                assert(harmonies@.subrange(0, harmonies@.len() as int) =~= harmonies@);
                r
            },
            None => {
                let r = vec![note];
                assert(r@ =~= seq![note]);
                r
            },
        };
        proof {
            assert(self@.active_notes =~= e0.active_notes.remove(note));
            assert(self@.active_port_maps =~= e0.active_port_maps.remove(note));
        }
        r
    }
}

impl Default for HarmonyEngine {
    /// Two voices in C, pass-through.
    fn default() -> (r: Self)
        ensures
            r.wf(),
            r@ == HarmonyEngine::with_voices_view(Key::C, HarmonyMode::PassThrough, 2),
    {
        HarmonyEngine::with_voices(Key::C, HarmonyMode::PassThrough, 2)
    }
}

} // verus!
