//! Chord-level voicing with deterministic tiebreaking.
//!
//! Candidate voicings are evaluated as whole chords: every combination of
//! register placements is checked against hard constraints and scored, and the
//! best one under a total order (score, then common tones, stepwise motion,
//! total movement and finally the MIDI values) is returned. The same input
//! always gives the same output.

use vstd::prelude::*;

use super::rules::{
    check_motion_independence, check_parallel_fifths, check_parallel_octaves, check_spacing,
    check_voice_crossing, crossing_pairs, parallel_fifth_pairs, parallel_octave_pairs, spacing_list,
    spec_all_parallel,
};
use super::styles::StyleRules;

verus! {

/// Voice register with a MIDI range.
#[derive(Clone, Copy, Debug, PartialEq, Eq, Structural)]
pub enum VoiceRegister {
    /// MIDI 60-81.
    Soprano,
    /// MIDI 55-76.
    Alto,
    /// MIDI 48-69.
    Tenor,
    /// MIDI 40-64.
    Bass,
}

impl VoiceRegister {
    /// Lowest note of the register.
    pub open spec fn spec_lo(self) -> u8 {
        match self {
            VoiceRegister::Soprano => 60,
            VoiceRegister::Alto => 55,
            VoiceRegister::Tenor => 48,
            VoiceRegister::Bass => 40,
        }
    }

    /// Highest note of the register.
    pub open spec fn spec_hi(self) -> u8 {
        match self {
            VoiceRegister::Soprano => 81,
            VoiceRegister::Alto => 76,
            VoiceRegister::Tenor => 69,
            VoiceRegister::Bass => 64,
        }
    }

    /// Ordering value: 0 = soprano (highest) to 3 = bass (lowest).
    pub open spec fn spec_order(self) -> u8 {
        match self {
            VoiceRegister::Soprano => 0,
            VoiceRegister::Alto => 1,
            VoiceRegister::Tenor => 2,
            VoiceRegister::Bass => 3,
        }
    }

    /// Returns (low, high) MIDI range, inclusive.
    pub fn range(&self) -> (r: (u8, u8))
        ensures
            r == (self.spec_lo(), self.spec_hi()),
    {
        match self {
            VoiceRegister::Soprano => (60, 81),
            VoiceRegister::Alto => (55, 76),
            VoiceRegister::Tenor => (48, 69),
            VoiceRegister::Bass => (40, 64),
        }
    }

    /// All MIDI notes of the given pitch class within the register, ascending.
    pub fn valid_placements(&self, pitch_class: u8) -> (r: Vec<u8>)
        ensures
            r@ == spec_notes_in_range(pitch_class % 12, self.spec_lo(), self.spec_hi()),
    {
        let (lo, hi) = self.range();
        notes_in_range(pitch_class % 12, lo, hi)
    }

    /// Register center (used to place a first chord).
    pub fn center(&self) -> (r: u8)
        ensures
            r == (self.spec_lo() + self.spec_hi()) / 2,
    {
        let (lo, hi) = self.range();
        (lo + hi) / 2
    }

    /// Returns ordering value: 0 = soprano (highest), 3 = bass (lowest).
    pub fn order(&self) -> (r: u8)
        ensures
            r == self.spec_order(),
    {
        match self {
            VoiceRegister::Soprano => 0,
            VoiceRegister::Alto => 1,
            VoiceRegister::Tenor => 2,
            VoiceRegister::Bass => 3,
        }
    }
}

/// First note `>= lo` with pitch class `pc`.
pub open spec fn first_at_or_above(pc: u8, lo: u8) -> int {
    lo + ((12 + pc - (lo % 12)) % 12)
}

/// All notes of pitch class `pc` (0-11) in `[lo, hi]`, ascending.
pub open spec fn spec_notes_in_range(pc: u8, lo: u8, hi: u8) -> Seq<u8> {
    let first = first_at_or_above(pc, lo);
    let count: int = if first > hi { 0 } else { (hi - first) / 12 + 1 };
    Seq::new(count as nat, |k: int| (first + 12 * k) as u8)
}

/// All notes of pitch class `pc` (0-11) in `[lo, hi]` (hi <= 127), ascending.
pub fn notes_in_range(pc: u8, lo: u8, hi: u8) -> (r: Vec<u8>)
    requires
        pc < 12,
        hi <= 127,
    ensures
        r@ == spec_notes_in_range(pc, lo, hi),
{
    let first: u16 = lo as u16 + ((12 + pc as u16 - (lo % 12) as u16) % 12);
    let ghost count: int = if first > hi { 0 } else { (hi - first) / 12 + 1 };
    let mut r: Vec<u8> = Vec::new();
    let mut note: u16 = first;
    let mut k: usize = 0;
    while note <= hi as u16
        invariant
            first == first_at_or_above(pc, lo),
            count == if first > hi { 0 } else { (hi - first) / 12 + 1 },
            note == first + 12 * k,
            hi <= 127,
            r@.len() == k,
            forall|t: int| 0 <= t < k ==> r@[t] == (first + 12 * t) as u8,
            note <= hi ==> k < count,
            note > hi ==> k == count,
        decreases hi + 12 - note,
    {
        assert(first <= hi);
        r.push(note as u8);
        note = note + 12;
        k = k + 1;
        proof {
            if note <= hi {
                assert(k < count) by (nonlinear_arith)
                    requires
                        note == first + 12 * k,
                        note <= hi,
                        count == (hi - first) / 12 + 1,
                        first <= hi,
                        k > 0,
                ;
            } else {
                assert(k == count) by (nonlinear_arith)
                    requires
                        note == first + 12 * k,
                        note > hi,
                        first + 12 * (k - 1) <= hi,
                        count == (hi - first) / 12 + 1,
                        first <= hi,
                        k > 0,
                ;
            }
        }
    }
    assert(r@ =~= spec_notes_in_range(pc, lo, hi));
    r
}

/// Anchor constraints for revoicing: the user's played note.
pub struct VoiceAnchor {
    /// The user's current MIDI note.
    pub midi: u8,
    /// The user's arrangement position (0 = soprano ... 3 = bass).
    pub arrangement_pos: usize,
    /// Arrangement positions of each harmony voice, in harmony order.
    pub harmony_arrangement_positions: Vec<usize>,
}

/// How the anchor constrains harmony voice `i`: 0 = unconstrained (no anchor
/// or no position for the voice), 1 = must be at or above the anchor note,
/// 2 = must be at or below it, 3 = same arrangement position.
pub open spec fn side_of(anchor: Option<&VoiceAnchor>, i: int) -> u8 {
    match anchor {
        None => 0,
        Some(a) => if 0 <= i < a.harmony_arrangement_positions@.len() {
            let arr = a.harmony_arrangement_positions@[i];
            if arr < a.arrangement_pos {
                1
            } else if arr > a.arrangement_pos {
                2
            } else {
                3
            }
        } else {
            0
        },
    }
}

/// The anchor note (0 when there is no anchor).
pub open spec fn anchor_midi(anchor: Option<&VoiceAnchor>) -> u8 {
    match anchor {
        Some(a) => a.midi,
        None => 0,
    }
}

/// Whether a placement respects the side constraint.
pub open spec fn side_ok(side: u8, midi: u8, x: u8) -> bool {
    (side == 1 ==> x >= midi) && (side == 2 ==> x <= midi)
}

/// The register of harmony voice `i` (registers[0] is the melody's).
pub open spec fn reg_for(registers: Seq<VoiceRegister>, i: int) -> VoiceRegister {
    if i + 1 < registers.len() {
        registers[i + 1]
    } else {
        VoiceRegister::Alto
    }
}

/// Candidate placements of harmony voice `i`: its register's notes that
/// respect the anchor; otherwise notes within about 1.5 octaves on the
/// anchor's side; otherwise any MIDI note of the pitch class on the right side.
pub open spec fn spec_placements(
    pcs: Seq<u8>,
    registers: Seq<VoiceRegister>,
    anchor: Option<&VoiceAnchor>,
    i: int,
) -> Seq<u8> {
    let reg = reg_for(registers, i);
    let pc = pcs[i] % 12;
    let side = side_of(anchor, i);
    let midi = anchor_midi(anchor);
    let valid = spec_notes_in_range(pc, reg.spec_lo(), reg.spec_hi()).filter(|x: u8| side_ok(side, midi, x));
    if valid.len() > 0 {
        valid
    } else {
        let adjusted = if side == 0 {
            Seq::empty()
        } else if side == 1 {
            spec_notes_in_range(pc, midi, if midi + 18 > 127 { 127 } else { (midi + 18) as u8 })
        } else {
            spec_notes_in_range(pc, if midi < 18 { 0 } else { (midi - 18) as u8 }, midi)
        };
        if adjusted.len() > 0 {
            adjusted
        } else {
            spec_notes_in_range(pc, 0, 127).filter(|x: u8| side_ok(side, midi, x))
        }
    }
}

/// Fallback note for a harmony voice: just above / just below the anchor on
/// its side, otherwise the pitch class in the octave above middle C.
pub open spec fn spec_fallback_note(pc: u8, anchor: Option<&VoiceAnchor>, i: int) -> u8 {
    let side = side_of(anchor, i);
    let m = anchor_midi(anchor);
    let p = pc % 12;
    if side == 1 {
        let base = m + ((12 + p - (m % 12)) % 12);
        if base > m {
            if base > 127 { 127 } else { base as u8 }
        } else {
            if base + 12 > 127 { 127 } else { (base + 12) as u8 }
        }
    } else if side == 2 {
        let d = ((m % 12) + 12 - p) % 12;
        let base = if m < d { 0 } else { m - d };
        if base < m {
            base as u8
        } else {
            if base < 12 { 0 } else { (base - 12) as u8 }
        }
    } else {
        (60 + p) as u8
    }
}

/// The fallback voicing of all harmony voices.
pub open spec fn spec_fallback(pcs: Seq<u8>, anchor: Option<&VoiceAnchor>) -> Seq<u8> {
    Seq::new(pcs.len(), |i: int| spec_fallback_note(pcs[i], anchor, i))
}

/// Extends every partial combination with every item of `set`.
pub open spec fn extend_all(prev: Seq<Seq<u8>>, set: Seq<u8>) -> Seq<Seq<u8>>
    decreases prev.len(),
{
    if prev.len() == 0 {
        Seq::empty()
    } else {
        extend_all(prev.drop_last(), set) + set.map(|k: int, x: u8| prev.last().push(x))
    }
}

/// Cartesian product of placement sets, in row order.
pub open spec fn spec_cartesian(sets: Seq<Seq<u8>>) -> Seq<Seq<u8>>
    decreases sets.len(),
{
    if sets.len() == 0 {
        seq![Seq::<u8>::empty()]
    } else {
        extend_all(spec_cartesian(sets.drop_last()), sets.last())
    }
}

/// Every combination in `extend_all(prev, set)` is one longer than those in `prev`.
proof fn lemma_extend_all_len(prev: Seq<Seq<u8>>, set: Seq<u8>, len: nat)
    requires
        forall|i: int| 0 <= i < prev.len() ==> (#[trigger] prev[i]).len() == len,
    ensures
        forall|i: int| 0 <= i < extend_all(prev, set).len() ==> (#[trigger] extend_all(prev, set)[i]).len() == len + 1,
    decreases prev.len(),
{
    if prev.len() > 0 {
        lemma_extend_all_len(prev.drop_last(), set, len);
        let a = extend_all(prev.drop_last(), set);
        let b = set.map(|k: int, x: u8| prev.last().push(x));
        assert(prev.last() == prev[prev.len() - 1]);
        assert forall|i: int| 0 <= i < (a + b).len() implies (#[trigger] (a + b)[i]).len() == len + 1 by {
            if i < a.len() {
                assert((a + b)[i] == a[i]);
            } else {
                assert((a + b)[i] == b[i - a.len()]);
            }
        }
    }
}

/// Every combination has one entry per set.
proof fn lemma_cartesian_len(sets: Seq<Seq<u8>>)
    ensures
        forall|i: int| 0 <= i < spec_cartesian(sets).len() ==> (#[trigger] spec_cartesian(sets)[i]).len() == sets.len(),
    decreases sets.len(),
{
    if sets.len() > 0 {
        lemma_cartesian_len(sets.drop_last());
        lemma_extend_all_len(spec_cartesian(sets.drop_last()), sets.last(), sets.drop_last().len());
    }
}

/// The melody note a candidate is judged against.
pub open spec fn spec_melody_note(anchor: Option<&VoiceAnchor>, prev: Option<Seq<u8>>) -> u8 {
    match anchor {
        Some(a) => a.midi,
        None => match prev {
            Some(p) => p[0],
            None => 72,
        },
    }
}

/// Harmony voice `i` of candidate `c` lies on the wrong side of the anchor note.
pub open spec fn crosses_anchor(a: &VoiceAnchor, c: Seq<u8>, i: int) -> bool {
    let hap = a.harmony_arrangement_positions@;
    &&& 0 <= i < c.len()
    &&& i < hap.len()
    &&& ((hap[i] < a.arrangement_pos && c[i] < a.midi) || (hap[i] > a.arrangement_pos && c[i] > a.midi))
}

/// Harmony voices `i < j` of candidate `c` are in the opposite order to
/// their arrangement positions.
pub open spec fn order_reversed(a: &VoiceAnchor, c: Seq<u8>, i: int, j: int) -> bool {
    let hap = a.harmony_arrangement_positions@;
    &&& 0 <= i < j < c.len()
    &&& j < hap.len()
    &&& ((hap[i] < hap[j] && c[i] < c[j]) || (hap[i] > hap[j] && c[i] > c[j]))
}

/// A candidate crosses the anchor note or reverses the arrangement order of
/// two harmony voices.
pub open spec fn spec_anchor_rejected(anchor: Option<&VoiceAnchor>, c: Seq<u8>) -> bool {
    match anchor {
        None => false,
        Some(a) => (exists|i: int| #[trigger] crosses_anchor(a, c, i)) || (exists|i: int, j: int|
            #[trigger] order_reversed(a, c, i, j)),
    }
}

/// Distance between two notes.
pub open spec fn dist(a: u8, b: u8) -> int {
    if a >= b {
        a - b
    } else {
        b - a
    }
}

/// Some harmony voice leaps further than the style allows.
pub open spec fn leap_too_far(rules: StyleRules, prev: Seq<u8>, c: Seq<u8>) -> bool {
    exists|i: int| 0 <= i < c.len() && i + 1 < prev.len() && dist(#[trigger] c[i], prev[i + 1]) > rules.max_leap_semitones
}

/// A candidate violates a hard constraint of the style against the previous voicing.
pub open spec fn spec_hard_rejected(rules: StyleRules, prev: Option<Seq<u8>>, full: Seq<u8>, c: Seq<u8>) -> bool {
    match prev {
        None => false,
        Some(p) => (rules.hard_reject_parallel_fifths && parallel_fifth_pairs(p, full).len() > 0) || (
        rules.hard_reject_parallel_octaves && parallel_octave_pairs(p, full).len() > 0) || leap_too_far(rules, p, c),
    }
}

/// Motion score of harmony voices `k..` against the previous voicing.
pub open spec fn motion_score(rules: StyleRules, prev: Seq<u8>, c: Seq<u8>, k: int) -> int
    decreases c.len() - k,
{
    if k < 0 || k >= c.len() {
        0
    } else {
        let here: int = if k + 1 < prev.len() {
            let m = dist(c[k], prev[k + 1]);
            if m == 0 {
                rules.common_tone_bonus as int
            } else if m <= 2 {
                rules.stepwise_bonus as int
            } else {
                m * rules.leap_penalty_per_semitone
            }
        } else {
            0
        };
        here + motion_score(rules, prev, c, k + 1)
    }
}

/// Total distance of harmony voices `k..` from their register centers.
pub open spec fn center_distance(registers: Seq<VoiceRegister>, c: Seq<u8>, k: int) -> int
    decreases c.len() - k,
{
    if k < 0 || k >= c.len() {
        0
    } else {
        let reg = reg_for(registers, k);
        dist(c[k], ((reg.spec_lo() + reg.spec_hi()) / 2) as u8) + center_distance(registers, c, k + 1)
    }
}

/// Soft score of a candidate (higher is better).
pub open spec fn spec_score(
    rules: StyleRules,
    prev: Option<Seq<u8>>,
    registers: Seq<VoiceRegister>,
    full: Seq<u8>,
    c: Seq<u8>,
) -> int {
    let base = spacing_list(full, 0).len() * rules.spacing_violation_penalty + crossing_pairs(
        full,
        registers,
    ).len() * rules.voice_crossing_penalty;
    match prev {
        Some(p) => base + (if !rules.hard_reject_parallel_fifths {
            parallel_fifth_pairs(p, full).len() * rules.parallel_fifths_penalty
        } else {
            0
        }) + (if !rules.hard_reject_parallel_octaves {
            parallel_octave_pairs(p, full).len() * rules.parallel_octaves_penalty
        } else {
            0
        }) + (if spec_all_parallel(p, full) { rules.all_parallel_motion_penalty as int } else { 0 })
            + motion_score(rules, p, c, 0),
        None => base - center_distance(registers, c, 0),
    }
}

/// Number of harmony voices `k..` holding the previous note.
pub open spec fn spec_common_tones(c: Seq<u8>, prev: Seq<u8>, k: int) -> int
    decreases c.len() - k,
{
    if k < 0 || k >= c.len() {
        0
    } else {
        (if k + 1 < prev.len() && prev[k + 1] == c[k] { 1int } else { 0int }) + spec_common_tones(c, prev, k + 1)
    }
}

/// Number of harmony voices `k..` stepping down by 1-2 semitones.
pub open spec fn spec_stepwise_down(c: Seq<u8>, prev: Seq<u8>, k: int) -> int
    decreases c.len() - k,
{
    if k < 0 || k >= c.len() {
        0
    } else {
        (if k + 1 < prev.len() && prev[k + 1] > c[k] && prev[k + 1] - c[k] <= 2 { 1int } else { 0int })
            + spec_stepwise_down(c, prev, k + 1)
    }
}

/// Number of harmony voices `k..` stepping up by 1-2 semitones.
pub open spec fn spec_stepwise_up(c: Seq<u8>, prev: Seq<u8>, k: int) -> int
    decreases c.len() - k,
{
    if k < 0 || k >= c.len() {
        0
    } else {
        (if k + 1 < prev.len() && c[k] > prev[k + 1] && c[k] - prev[k + 1] <= 2 { 1int } else { 0int })
            + spec_stepwise_up(c, prev, k + 1)
    }
}

/// Total movement of harmony voices `k..` from the previous voicing.
pub open spec fn spec_total_movement(c: Seq<u8>, prev: Seq<u8>, k: int) -> int
    decreases c.len() - k,
{
    if k < 0 || k >= c.len() {
        0
    } else {
        (if k + 1 < prev.len() { dist(c[k], prev[k + 1]) } else { 0 }) + spec_total_movement(c, prev, k + 1)
    }
}

/// Lexicographic order on equal-length note sequences, from index `k`.
pub open spec fn lex_less(a: Seq<u8>, b: Seq<u8>, k: int) -> bool
    decreases a.len() - k,
{
    if k < 0 || k >= a.len() || k >= b.len() {
        a.len() < b.len()
    } else if a[k] != b[k] {
        a[k] < b[k]
    } else {
        lex_less(a, b, k + 1)
    }
}

/// Candidate `a` (score `sa`) is strictly preferred to `b` (score `sb`):
/// higher score, then (with a previous voicing) more common tones, more
/// downward steps, more upward steps, less total movement; then lower MIDI
/// values lexicographically.
pub open spec fn spec_better(sa: int, a: Seq<u8>, sb: int, b: Seq<u8>, prev: Option<Seq<u8>>) -> bool {
    if sa != sb {
        sa > sb
    } else {
        match prev {
            Some(p) => {
                let ca = spec_common_tones(a, p, 0);
                let cb = spec_common_tones(b, p, 0);
                let da = spec_stepwise_down(a, p, 0);
                let db = spec_stepwise_down(b, p, 0);
                let ua = spec_stepwise_up(a, p, 0);
                let ub = spec_stepwise_up(b, p, 0);
                let ma = spec_total_movement(a, p, 0);
                let mb = spec_total_movement(b, p, 0);
                if ca != cb {
                    ca > cb
                } else if da != db {
                    da > db
                } else if ua != ub {
                    ua > ub
                } else if ma != mb {
                    ma < mb
                } else {
                    lex_less(a, b, 0)
                }
            },
            None => lex_less(a, b, 0),
        }
    }
}

/// Everything `revoice_chord` needs to judge candidates.
pub open spec fn spec_judge(
    rules: StyleRules,
    prev: Option<Seq<u8>>,
    registers: Seq<VoiceRegister>,
    anchor: Option<&VoiceAnchor>,
    c: Seq<u8>,
) -> (bool, bool, int) {
    let full = seq![spec_melody_note(anchor, prev)] + c;
    (
        spec_anchor_rejected(anchor, c),
        spec_hard_rejected(rules, prev, full, c),
        spec_score(rules, prev, registers, full, c),
    )
}

/// The previous voicing, as a sequence.
pub open spec fn opt_view(prev: Option<&[u8]>) -> Option<Seq<u8>> {
    match prev {
        Some(p) => Some(p@),
        None => None,
    }
}

/// Candidates that respect the anchor and every hard constraint.
pub open spec fn passes(
    rules: StyleRules,
    prev: Option<Seq<u8>>,
    registers: Seq<VoiceRegister>,
    anchor: Option<&VoiceAnchor>,
) -> spec_fn(Seq<u8>) -> bool {
    |c: Seq<u8>| !spec_judge(rules, prev, registers, anchor, c).0 && !spec_judge(rules, prev, registers, anchor, c).1
}

/// Candidates that respect the anchor but break a hard constraint.
pub open spec fn fails_only_hard(
    rules: StyleRules,
    prev: Option<Seq<u8>>,
    registers: Seq<VoiceRegister>,
    anchor: Option<&VoiceAnchor>,
) -> spec_fn(Seq<u8>) -> bool {
    |c: Seq<u8>| !spec_judge(rules, prev, registers, anchor, c).0 && spec_judge(rules, prev, registers, anchor, c).1
}

/// The candidates that compete: those passing every check, or, if there
/// are none, those failing only hard constraints.
pub open spec fn spec_pool(
    rules: StyleRules,
    prev: Option<Seq<u8>>,
    registers: Seq<VoiceRegister>,
    anchor: Option<&VoiceAnchor>,
    cands: Seq<Seq<u8>>,
) -> Seq<Seq<u8>> {
    let passing = cands.filter(passes(rules, prev, registers, anchor));
    if passing.len() > 0 {
        passing
    } else {
        cands.filter(fails_only_hard(rules, prev, registers, anchor))
    }
}

/// `b` is in `pool` and no candidate of `pool` is strictly preferred to it.
pub open spec fn is_best(
    rules: StyleRules,
    prev: Option<Seq<u8>>,
    registers: Seq<VoiceRegister>,
    anchor: Option<&VoiceAnchor>,
    pool: Seq<Seq<u8>>,
    b: Seq<u8>,
) -> bool {
    &&& pool.contains(b)
    &&& forall|c: Seq<u8>|
        #[trigger] pool.contains(c) ==> !spec_better(
            spec_judge(rules, prev, registers, anchor, c).2,
            c,
            spec_judge(rules, prev, registers, anchor, b).2,
            b,
            prev,
        )
}

/// The lexicographic order is irreflexive.
proof fn lemma_lex_irrefl(a: Seq<u8>, k: int)
    requires
        k >= 0,
    ensures
        !lex_less(a, a, k),
    decreases a.len() - k,
{
    if k < a.len() {
        lemma_lex_irrefl(a, k + 1);
    }
}

/// The lexicographic order is transitive.
proof fn lemma_lex_trans(a: Seq<u8>, b: Seq<u8>, c: Seq<u8>, k: int)
    requires
        k >= 0,
        lex_less(a, b, k),
        lex_less(b, c, k),
    ensures
        lex_less(a, c, k),
    decreases a.len() - k,
{
    if k < a.len() && k < b.len() && k < c.len() && a[k] == b[k] && b[k] == c[k] {
        lemma_lex_trans(a, b, c, k + 1);
    }
}

/// No candidate is preferred to itself.
pub proof fn lemma_better_irreflexive(s: int, a: Seq<u8>, prev: Option<Seq<u8>>)
    ensures
        !spec_better(s, a, s, a, prev),
{
    lemma_lex_irrefl(a, 0);
}

/// Preference between candidates is transitive.
pub proof fn lemma_better_transitive(
    sa: int,
    a: Seq<u8>,
    sb: int,
    b: Seq<u8>,
    sc: int,
    c: Seq<u8>,
    prev: Option<Seq<u8>>,
)
    requires
        spec_better(sa, a, sb, b, prev),
        spec_better(sb, b, sc, c, prev),
    ensures
        spec_better(sa, a, sc, c, prev),
{
    if lex_less(a, b, 0) && lex_less(b, c, 0) {
        lemma_lex_trans(a, b, c, 0);
    }
}

/// A single candidate is the best of a pool holding only it.
proof fn lemma_best_single(
    rules: StyleRules,
    prev: Option<Seq<u8>>,
    registers: Seq<VoiceRegister>,
    anchor: Option<&VoiceAnchor>,
    pool: Seq<Seq<u8>>,
    x: Seq<u8>,
)
    requires
        pool.len() == 0,
    ensures
        is_best(rules, prev, registers, anchor, pool.push(x), x),
{
    let p = pool.push(x);
    assert(p[0] == x);
    assert forall|c: Seq<u8>| #[trigger] p.contains(c) implies c == x by {
        let i = choose|i: int| 0 <= i < p.len() && p[i] == c;
    }
    lemma_better_irreflexive(spec_judge(rules, prev, registers, anchor, x).2, x, prev);
}

/// Adding a candidate to a pool: it becomes the best if it is preferred to
/// the previous best, which stays the best otherwise.
proof fn lemma_best_push(
    rules: StyleRules,
    prev: Option<Seq<u8>>,
    registers: Seq<VoiceRegister>,
    anchor: Option<&VoiceAnchor>,
    pool: Seq<Seq<u8>>,
    b: Seq<u8>,
    x: Seq<u8>,
)
    requires
        is_best(rules, prev, registers, anchor, pool, b),
    ensures
        spec_better(
            spec_judge(rules, prev, registers, anchor, x).2,
            x,
            spec_judge(rules, prev, registers, anchor, b).2,
            b,
            prev,
        ) ==> is_best(rules, prev, registers, anchor, pool.push(x), x),
        !spec_better(
            spec_judge(rules, prev, registers, anchor, x).2,
            x,
            spec_judge(rules, prev, registers, anchor, b).2,
            b,
            prev,
        ) ==> is_best(rules, prev, registers, anchor, pool.push(x), b),
{
    let p = pool.push(x);
    let sx = spec_judge(rules, prev, registers, anchor, x).2;
    let sb = spec_judge(rules, prev, registers, anchor, b).2;
    assert forall|c: Seq<u8>| #[trigger] p.contains(c) implies c == x || pool.contains(c) by {
        let i = choose|i: int| 0 <= i < p.len() && p[i] == c;
        if i < pool.len() {
            assert(pool[i] == c);
        }
    }
    assert(p[pool.len() as int] == x);
    lemma_better_irreflexive(sx, x, prev);
    if spec_better(sx, x, sb, b, prev) {
        assert forall|c: Seq<u8>| #[trigger] p.contains(c) implies !spec_better(
            spec_judge(rules, prev, registers, anchor, c).2,
            c,
            sx,
            x,
            prev,
        ) by {
            let sc = spec_judge(rules, prev, registers, anchor, c).2;
            if c != x && spec_better(sc, c, sx, x, prev) {
                lemma_better_transitive(sc, c, sx, x, sb, b, prev);
            }
        }
    } else {
        let j = choose|j: int| 0 <= j < pool.len() && pool[j] == b;
        assert(p[j] == b);
    }
}

/// Placement sets of all harmony voices.
pub open spec fn spec_all_placements(
    pcs: Seq<u8>,
    registers: Seq<VoiceRegister>,
    anchor: Option<&VoiceAnchor>,
) -> Seq<Seq<u8>> {
    Seq::new(pcs.len(), |i: int| spec_placements(pcs, registers, anchor, i))
}

/// Exec form of `side_of`.
fn anchor_side(anchor: Option<&VoiceAnchor>, i: usize) -> (r: u8)
    ensures
        r == side_of(anchor, i as int),
{
    match anchor {
        None => 0,
        Some(a) => {
            if i < a.harmony_arrangement_positions.len() {
                let arr = a.harmony_arrangement_positions[i];
                if arr < a.arrangement_pos {
                    1
                } else if arr > a.arrangement_pos {
                    2
                } else {
                    3
                }
            } else {
                0
            }
        },
    }
}

/// Keeps the notes on the required side of the anchor.
fn filter_side(v: &Vec<u8>, side: u8, midi: u8) -> (r: Vec<u8>)
    ensures
        r@ == v@.filter(|x: u8| side_ok(side, midi, x)),
{
    let ghost pred = |x: u8| side_ok(side, midi, x);
    let mut r: Vec<u8> = Vec::new();
    let mut i: usize = 0;
    while i < v.len()
        invariant
            i <= v@.len(),
            pred == (|x: u8| side_ok(side, midi, x)),
            r@ == v@.take(i as int).filter(pred),
        decreases v@.len() - i,
    {
        let x = v[i];
        proof {
            v@.take(i as int).lemma_filter_push(x, pred);
            assert(v@.take(i as int).push(x) =~= v@.take(i + 1));
        }
        if (side != 1 || x >= midi) && (side != 2 || x <= midi) {
            r.push(x);
        }
        i = i + 1;
    }
    assert(v@.take(v@.len() as int) =~= v@);
    r
}

/// Candidate placements of harmony voice `i` (see `spec_placements`).
#[verifier::rlimit(40)]
fn voice_placements(
    pcs: &[u8],
    registers: &[VoiceRegister],
    anchor: Option<&VoiceAnchor>,
    i: usize,
) -> (r: Vec<u8>)
    requires
        i < pcs@.len(),
        anchor_midi(anchor) <= 127,
    ensures
        r@ == spec_placements(pcs@, registers@, anchor, i as int),
{
    let reg = if i < registers.len() && i + 1 < registers.len() {
        registers[i + 1]
    } else {
        VoiceRegister::Alto
    };
    let pc = pcs[i] % 12;
    let side = anchor_side(anchor, i);
    let midi: u8 = match anchor {
        Some(a) => a.midi,
        None => 0,
    };
    let all_valid = reg.valid_placements(pc);
    let valid = filter_side(&all_valid, side, midi);
    if valid.len() > 0 {
        return valid;
    }
    let adjusted: Vec<u8> = if side == 0 {
        Vec::new()
    } else if side == 1 {
        notes_in_range(pc, midi, if midi > 109 {
            127
        } else {
            midi + 18
        })
    } else {
        notes_in_range(pc, if midi < 18 {
            0
        } else {
            midi - 18
        }, midi)
    };
    proof {
        if side == 0 {
            assert(adjusted@ =~= Seq::<u8>::empty());
        }
    }
    if adjusted.len() > 0 {
        return adjusted;
    }
    let wide = notes_in_range(pc, 0, 127);
    filter_side(&wide, side, midi)
}

/// Exec form of `spec_fallback_note`.
fn fallback_note(pc: u8, anchor: Option<&VoiceAnchor>, i: usize) -> (r: u8)
    ensures
        r == spec_fallback_note(pc, anchor, i as int),
{
    let side = anchor_side(anchor, i);
    let m: u8 = match anchor {
        Some(a) => a.midi,
        None => 0,
    };
    let p = pc % 12;
    if side == 1 {
        let base: u16 = m as u16 + ((12 + p as u16 - (m % 12) as u16) % 12);
        if base > m as u16 {
            if base > 127 {
                127
            } else {
                base as u8
            }
        } else {
            if base + 12 > 127 {
                127
            } else {
                (base + 12) as u8
            }
        }
    } else if side == 2 {
        let d: u8 = ((m % 12) + 12 - p) % 12;
        let base: u8 = if m < d {
            0
        } else {
            m - d
        };
        if base < m {
            base
        } else {
            if base < 12 {
                0
            } else {
                base - 12
            }
        }
    } else {
        60 + p
    }
}

/// The fallback voicing of all harmony voices.
fn fallback_voicing(pcs: &[u8], anchor: Option<&VoiceAnchor>) -> (r: Vec<u8>)
    ensures
        r@ == spec_fallback(pcs@, anchor),
{
    let mut r: Vec<u8> = Vec::new();
    let mut i: usize = 0;
    while i < pcs.len()
        invariant
            i <= pcs@.len(),
            r@.len() == i,
            forall|k: int| 0 <= k < i ==> r@[k] == spec_fallback_note(pcs@[k], anchor, k),
        decreases pcs@.len() - i,
    {
        let note = fallback_note(pcs[i], anchor, i);
        r.push(note);
        i = i + 1;
    }
    assert(r@ =~= spec_fallback(pcs@, anchor));
    r
}

/// Cartesian product of placement sets, in row order.
pub fn cartesian_product(sets: &Vec<Vec<u8>>) -> (r: Vec<Vec<u8>>)
    ensures
        r@.len() == spec_cartesian(sets@.map_values(|s: Vec<u8>| s@)).len(),
        forall|i: int|
            0 <= i < r@.len() ==> (#[trigger] r@[i])@ == spec_cartesian(sets@.map_values(|s: Vec<u8>| s@))[i],
{
    let ghost views = sets@.map_values(|s: Vec<u8>| s@);
    let mut result: Vec<Vec<u8>> = Vec::new();
    result.push(Vec::new());
    assert(views.take(0) =~= Seq::<Seq<u8>>::empty());
    let mut s: usize = 0;
    while s < sets.len()
        invariant
            s <= sets@.len(),
            views == sets@.map_values(|s: Vec<u8>| s@),
            result@.len() == spec_cartesian(views.take(s as int)).len(),
            forall|i: int|
                0 <= i < result@.len() ==> (#[trigger] result@[i])@ == spec_cartesian(views.take(s as int))[i],
        decreases sets@.len() - s,
    {
        let set = &sets[s];
        let ghost prev_c = spec_cartesian(views.take(s as int));
        let mut new_result: Vec<Vec<u8>> = Vec::new();
        let mut e: usize = 0;
        while e < result.len()
            invariant
                e <= result@.len(),
                s < sets@.len(),
                set == sets@[s as int],
                prev_c.len() == result@.len(),
                forall|i: int| 0 <= i < result@.len() ==> (#[trigger] result@[i])@ == prev_c[i],
                new_result@.len() == extend_all(prev_c.take(e as int), set@).len(),
                forall|i: int|
                    0 <= i < new_result@.len() ==> (#[trigger] new_result@[i])@ == extend_all(
                        prev_c.take(e as int),
                        set@,
                    )[i],
            decreases result@.len() - e,
        {
            let ghost before = new_result@;
            let mut t: usize = 0;
            while t < set.len()
                invariant
                    t <= set@.len(),
                    e < result@.len(),
                    new_result@.len() == before.len() + t,
                    forall|i: int| 0 <= i < before.len() ==> #[trigger] new_result@[i] == before[i],
                    forall|i: int|
                        0 <= i < t ==> (#[trigger] new_result@[before.len() + i])@ == result@[e as int]@.push(
                            set@[i],
                        ),
                decreases set@.len() - t,
            {
                let mut combo = result[e].clone();
                combo.push(set[t]);
                new_result.push(combo);
                t = t + 1;
            }
            proof {
                let pe = prev_c.take(e + 1);
                assert(pe.drop_last() =~= prev_c.take(e as int));
                assert(pe.last() == prev_c[e as int]);
                let tail = set@.map(|k: int, x: u8| pe.last().push(x));
                assert(extend_all(pe, set@) == extend_all(prev_c.take(e as int), set@) + tail);
                assert forall|i: int| 0 <= i < new_result@.len() implies (#[trigger] new_result@[i])@ == extend_all(
                    pe,
                    set@,
                )[i] by {
                    if i < before.len() {
                    } else {
                        assert(new_result@[before.len() + (i - before.len())] == new_result@[i]);
                    }
                }
            }
            e = e + 1;
        }
        proof {
            assert(prev_c.take(result@.len() as int) =~= prev_c);
            let vt = views.take(s + 1);
            assert(vt.drop_last() =~= views.take(s as int));
            assert(vt.last() == views[s as int]);
            assert(views[s as int] == sets@[s as int]@);
        }
        result = new_result;
        s = s + 1;
    }
    assert(views.take(sets@.len() as int) =~= views);
    result
}

/// Exec form of `spec_anchor_rejected`.
fn is_anchor_rejected(anchor: Option<&VoiceAnchor>, c: &Vec<u8>) -> (r: bool)
    ensures
        r == spec_anchor_rejected(anchor, c@),
{
    match anchor {
        None => false,
        Some(a) => rejected_by(a, c),
    }
}

/// Whether candidate `c` crosses the anchor `a` or reverses two voices.
fn rejected_by(a: &VoiceAnchor, c: &Vec<u8>) -> (r: bool)
    ensures
        r == ((exists|i: int| #[trigger] crosses_anchor(a, c@, i)) || (exists|i: int, j: int|
            #[trigger] order_reversed(a, c@, i, j))),
{
    let n = c.len();
    let hap = &a.harmony_arrangement_positions;
    let mut i: usize = 0;
    while i < n
        invariant
            i <= n,
            n == c@.len(),
            hap@ == a.harmony_arrangement_positions@,
            forall|k: int| 0 <= k < i ==> !#[trigger] crosses_anchor(a, c@, k),
        decreases n - i,
    {
        if i < hap.len() {
            if (hap[i] < a.arrangement_pos && c[i] < a.midi) || (hap[i] > a.arrangement_pos && c[i] > a.midi) {
                assert(crosses_anchor(a, c@, i as int));
                return true;
            }
        }
        i = i + 1;
    }
    assert forall|k: int| !#[trigger] crosses_anchor(a, c@, k) by {
        if 0 <= k < n {
        }
    }
    let mut i: usize = 0;
    while i < n
        invariant
            i <= n,
            n == c@.len(),
            hap@ == a.harmony_arrangement_positions@,
            forall|k: int| !#[trigger] crosses_anchor(a, c@, k),
            forall|k: int, l: int| k < i ==> !#[trigger] order_reversed(a, c@, k, l),
        decreases n - i,
    {
        let mut j: usize = i + 1;
        while j < n
            invariant
                i < n,
                i + 1 <= j <= n,
                n == c@.len(),
                hap@ == a.harmony_arrangement_positions@,
                forall|k: int, l: int| k < i ==> !#[trigger] order_reversed(a, c@, k, l),
                forall|l: int| l < j ==> !#[trigger] order_reversed(a, c@, i as int, l),
            decreases n - j,
        {
            if j < hap.len() {
                if (hap[i] < hap[j] && c[i] < c[j]) || (hap[i] > hap[j] && c[i] > c[j]) {
                    assert(order_reversed(a, c@, i as int, j as int));
                    return true;
                }
            }
            j = j + 1;
        }
        assert forall|k: int, l: int| k < i + 1 implies !#[trigger] order_reversed(a, c@, k, l) by {
            if k == i && 0 <= l < n {
            }
        }
        i = i + 1;
    }
    assert forall|k: int, l: int| !#[trigger] order_reversed(a, c@, k, l) by {
        if 0 <= k < n {
        }
    }
    false
}

/// Exec form of `leap_too_far`.
fn has_leap_too_far(rules: &StyleRules, prev: &[u8], c: &Vec<u8>) -> (r: bool)
    ensures
        r == leap_too_far(*rules, prev@, c@),
{
    let mut i: usize = 0;
    while i < c.len()
        invariant
            i <= c@.len(),
            forall|k: int|
                0 <= k < i && k + 1 < prev@.len() ==> !(dist(#[trigger] c@[k], prev@[k + 1]) > rules.max_leap_semitones),
        decreases c@.len() - i,
    {
        if i + 1 < prev.len() {
            let leap: u8 = if c[i] >= prev[i + 1] {
                c[i] - prev[i + 1]
            } else {
                prev[i + 1] - c[i]
            };
            if leap > rules.max_leap_semitones {
                return true;
            }
        }
        i = i + 1;
    }
    false
}

/// Exec form of `motion_score` (in i128).
fn motion_score_exec(rules: &StyleRules, prev: &[u8], c: &Vec<u8>) -> (r: i128)
    ensures
        r == motion_score(*rules, prev@, c@, 0),
        -(c@.len()) * 0x100_0000_0000 <= r <= c@.len() * 0x100_0000_0000,
{
    let n = c.len();
    let mut k: usize = n;
    let mut acc: i128 = 0;
    while k > 0
        invariant
            k <= n,
            n == c@.len(),
            acc == motion_score(*rules, prev@, c@, k as int),
            -(n - k) * 0x100_0000_0000 <= acc <= (n - k) * 0x100_0000_0000,
        decreases k,
    {
        k = k - 1;
        let mut here: i128 = 0;
        if k + 1 < prev.len() {
            let m: u8 = if c[k] >= prev[k + 1] {
                c[k] - prev[k + 1]
            } else {
                prev[k + 1] - c[k]
            };
            if m == 0 {
                here = rules.common_tone_bonus as i128;
            } else if m <= 2 {
                here = rules.stepwise_bonus as i128;
            } else {
                let w = rules.leap_penalty_per_semitone;
                assert(-0x100_0000_0000 <= m * w <= 0x100_0000_0000) by (nonlinear_arith)
                    requires
                        0 <= m <= 255,
                        -0x8000_0000 <= w <= 0x7fff_ffff,
                ;
                here = m as i128 * w as i128;
            }
        }
        assert((n - k) * 0x100_0000_0000 == (n - (k + 1)) * 0x100_0000_0000 + 0x100_0000_0000) by (nonlinear_arith);
        acc = here + acc;
    }
    acc
}

/// Exec form of `center_distance` (in i128).
fn center_distance_exec(registers: &[VoiceRegister], c: &Vec<u8>) -> (r: i128)
    ensures
        r == center_distance(registers@, c@, 0),
        0 <= r <= c@.len() * 256,
{
    let n = c.len();
    let mut k: usize = n;
    let mut acc: i128 = 0;
    while k > 0
        invariant
            k <= n,
            n == c@.len(),
            acc == center_distance(registers@, c@, k as int),
            0 <= acc <= (n - k) * 256,
        decreases k,
    {
        k = k - 1;
        let reg = if k + 1 < registers.len() {
            registers[k + 1]
        } else {
            VoiceRegister::Alto
        };
        let center = reg.center();
        let d: u8 = if c[k] >= center {
            c[k] - center
        } else {
            center - c[k]
        };
        acc = acc + d as i128;
    }
    acc
}

/// `count * weight`, widened so that it cannot overflow.
fn weighted(count: usize, weight: i32) -> (r: i128)
    ensures
        r == count * weight,
        -0x1_0000_0000_0000_0000_0000_0000 <= r <= 0x1_0000_0000_0000_0000_0000_0000,
{
    assert(-0x1_0000_0000_0000_0000_0000_0000 <= count * weight <= 0x1_0000_0000_0000_0000_0000_0000)
        by (nonlinear_arith)
        requires
            0 <= count <= 0xffff_ffff_ffff_ffff,
            -0x8000_0000 <= weight <= 0x7fff_ffff,
    ;
    count as i128 * weight as i128
}

/// Soft score of a candidate (see `spec_score`).
fn candidate_score(
    rules: &StyleRules,
    prev: Option<&[u8]>,
    registers: &[VoiceRegister],
    full: &Vec<u8>,
    c: &Vec<u8>,
) -> (r: i128)
    ensures
        r == spec_score(*rules, opt_view(prev), registers@, full@, c@),
{
    let spacing = weighted(check_spacing(full.as_slice()), rules.spacing_violation_penalty);
    let cross = weighted(check_voice_crossing(full.as_slice(), registers), rules.voice_crossing_penalty);
    let score: i128 = spacing + cross;
    match prev {
        Some(p) => {
            let fifths: i128 = if !rules.hard_reject_parallel_fifths {
                weighted(check_parallel_fifths(p, full.as_slice()), rules.parallel_fifths_penalty)
            } else {
                0
            };
            let octaves: i128 = if !rules.hard_reject_parallel_octaves {
                weighted(check_parallel_octaves(p, full.as_slice()), rules.parallel_octaves_penalty)
            } else {
                0
            };
            let par: i128 = if check_motion_independence(p, full.as_slice()) {
                rules.all_parallel_motion_penalty as i128
            } else {
                0
            };
            let motion = motion_score_exec(rules, p, c);
            assert(-0x1_0000_0000_0000_0000_0000_0000_0000 <= motion <= 0x1_0000_0000_0000_0000_0000_0000_0000)
                by (nonlinear_arith)
                requires
                    -(c.len()) * 0x100_0000_0000 <= motion <= c.len() * 0x100_0000_0000,
                    c.len() <= 0xffff_ffff_ffff_ffff,
            ;
            score + fifths + octaves + par + motion
        },
        None => {
            let d = center_distance_exec(registers, c);
            assert(c@.len() == c.len());
            score - d
        },
    }
}

/// Exec form of `spec_common_tones`.
fn count_common_tones(candidate: &[u8], prev: &[u8]) -> (r: usize)
    ensures
        r == spec_common_tones(candidate@, prev@, 0),
{
    let n = candidate.len();
    let mut k: usize = n;
    let mut acc: usize = 0;
    while k > 0
        invariant
            k <= n,
            n == candidate@.len(),
            acc == spec_common_tones(candidate@, prev@, k as int),
            acc <= n - k,
        decreases k,
    {
        k = k - 1;
        if k + 1 < prev.len() && prev[k + 1] == candidate[k] {
            acc = acc + 1;
        }
    }
    acc
}

/// Exec form of `spec_stepwise_down`.
fn count_stepwise_down(candidate: &[u8], prev: &[u8]) -> (r: usize)
    ensures
        r == spec_stepwise_down(candidate@, prev@, 0),
{
    let n = candidate.len();
    let mut k: usize = n;
    let mut acc: usize = 0;
    while k > 0
        invariant
            k <= n,
            n == candidate@.len(),
            acc == spec_stepwise_down(candidate@, prev@, k as int),
            acc <= n - k,
        decreases k,
    {
        k = k - 1;
        if k + 1 < prev.len() && prev[k + 1] > candidate[k] && prev[k + 1] - candidate[k] <= 2 {
            acc = acc + 1;
        }
    }
    acc
}

/// Exec form of `spec_stepwise_up`.
fn count_stepwise_up(candidate: &[u8], prev: &[u8]) -> (r: usize)
    ensures
        r == spec_stepwise_up(candidate@, prev@, 0),
{
    let n = candidate.len();
    let mut k: usize = n;
    let mut acc: usize = 0;
    while k > 0
        invariant
            k <= n,
            n == candidate@.len(),
            acc == spec_stepwise_up(candidate@, prev@, k as int),
            acc <= n - k,
        decreases k,
    {
        k = k - 1;
        if k + 1 < prev.len() && candidate[k] > prev[k + 1] && candidate[k] - prev[k + 1] <= 2 {
            acc = acc + 1;
        }
    }
    acc
}

/// Exec form of `spec_total_movement`.
fn total_movement(candidate: &[u8], prev: &[u8]) -> (r: u128)
    ensures
        r == spec_total_movement(candidate@, prev@, 0),
{
    let n = candidate.len();
    let mut k: usize = n;
    let mut acc: u128 = 0;
    while k > 0
        invariant
            k <= n,
            n == candidate@.len(),
            acc == spec_total_movement(candidate@, prev@, k as int),
            acc <= (n - k) * 256,
        decreases k,
    {
        k = k - 1;
        if k + 1 < prev.len() {
            let d: u8 = if candidate[k] >= prev[k + 1] {
                candidate[k] - prev[k + 1]
            } else {
                prev[k + 1] - candidate[k]
            };
            acc = acc + d as u128;
        } else {
        }
    }
    acc
}

/// Exec form of `lex_less(a, b, 0)`.
fn lex_less_exec(a: &Vec<u8>, b: &Vec<u8>) -> (r: bool)
    ensures
        r == lex_less(a@, b@, 0),
{
    let mut k: usize = 0;
    while k < a.len() && k < b.len()
        invariant
            k <= a@.len(),
            k <= b@.len(),
            lex_less(a@, b@, 0) == lex_less(a@, b@, k as int),
        decreases a@.len() - k,
    {
        if a[k] != b[k] {
            return a[k] < b[k];
        }
        k = k + 1;
    }
    a.len() < b.len()
}

/// Exec form of `spec_better`.
fn is_better(sa: i128, a: &Vec<u8>, sb: i128, b: &Vec<u8>, prev: Option<&[u8]>) -> (r: bool)
    ensures
        r == spec_better(sa as int, a@, sb as int, b@, opt_view(prev)),
{
    if sa != sb {
        return sa > sb;
    }
    match prev {
        Some(p) => {
            let ca = count_common_tones(a.as_slice(), p);
            let cb = count_common_tones(b.as_slice(), p);
            if ca != cb {
                return ca > cb;
            }
            let da = count_stepwise_down(a.as_slice(), p);
            let db = count_stepwise_down(b.as_slice(), p);
            if da != db {
                return da > db;
            }
            let ua = count_stepwise_up(a.as_slice(), p);
            let ub = count_stepwise_up(b.as_slice(), p);
            if ua != ub {
                return ua > ub;
            }
            let ma = total_movement(a.as_slice(), p);
            let mb = total_movement(b.as_slice(), p);
            if ma != mb {
                return ma < mb;
            }
            lex_less_exec(a, b)
        },
        None => lex_less_exec(a, b),
    }
}


/// Judges one candidate: anchor rejection, hard rejection and score (see `spec_judge`).
fn judge_candidate(
    style_rules: &StyleRules,
    prev_voicing: Option<&[u8]>,
    registers: &[VoiceRegister],
    anchor: Option<&VoiceAnchor>,
    melody_note: u8,
    candidate: &Vec<u8>,
) -> (r: (bool, bool, i128))
    requires
        melody_note == spec_melody_note(anchor, opt_view(prev_voicing)),
    ensures
        (r.0, r.1, r.2 as int) == spec_judge(*style_rules, opt_view(prev_voicing), registers@, anchor, candidate@),
{
    let mut full: Vec<u8> = Vec::new();
    full.push(melody_note);
    let mut t: usize = 0;
    while t < candidate.len()
        invariant
            t <= candidate@.len(),
            full@ == seq![melody_note] + candidate@.take(t as int),
        decreases candidate@.len() - t,
    {
        full.push(candidate[t]);
        t = t + 1;
        assert(full@ =~= seq![melody_note] + candidate@.take(t as int));
    }
    assert(candidate@.take(candidate@.len() as int) =~= candidate@);
    let anchor_rej = is_anchor_rejected(anchor, candidate);
    let hard = match prev_voicing {
        None => false,
        Some(p) => {
            (style_rules.hard_reject_parallel_fifths && check_parallel_fifths(p, full.as_slice()) > 0) || (
            style_rules.hard_reject_parallel_octaves && check_parallel_octaves(p, full.as_slice()) > 0)
                || has_leap_too_far(style_rules, p, candidate)
        },
    };
    let score = candidate_score(style_rules, prev_voicing, registers, &full, candidate);
    (anchor_rej, hard, score)
}

/// What `revoice_chord` returns for pitch classes `pcs`: nothing for no
/// voices; the fallback voicing when some voice has no placement; pitch
/// classes above middle C when there is no candidate; the fallback voicing
/// when no candidate respects the anchor; otherwise the best candidate (see
/// `spec_better`) among those passing all checks, or, if none does, among
/// those failing only hard constraints.
pub open spec fn spec_revoiced(
    pcs: Seq<u8>,
    prev: Option<Seq<u8>>,
    registers: Seq<VoiceRegister>,
    rules: StyleRules,
    anchor: Option<&VoiceAnchor>,
    r: Seq<u8>,
) -> bool {
    let sets = spec_all_placements(pcs, registers, anchor);
    let cands = spec_cartesian(sets);
    let pool = spec_pool(rules, prev, registers, anchor, cands);
    if pcs.len() == 0 {
        r == Seq::<u8>::empty()
    } else if exists|i: int| 0 <= i < pcs.len() && (#[trigger] sets[i]).len() == 0 {
        r == spec_fallback(pcs, anchor)
    } else if cands.len() == 0 {
        r == Seq::new(pcs.len(), |i: int| (60 + pcs[i] % 12) as u8)
    } else if pool.len() == 0 {
        r == spec_fallback(pcs, anchor)
    } else {
        is_best(rules, prev, registers, anchor, pool, r)
    }
}

/// The notes of pitch class `pc` in `[lo, hi]` have that pitch class and lie
/// in the range; there is one whenever the range spans an octave.
pub proof fn lemma_notes_in_range_facts(pc: u8, lo: u8, hi: u8)
    requires
        pc < 12,
        hi <= 127,
    ensures
        forall|k: int|
            0 <= k < spec_notes_in_range(pc, lo, hi).len() ==> (#[trigger] spec_notes_in_range(pc, lo, hi)[k]) % 12
                == pc && lo <= spec_notes_in_range(pc, lo, hi)[k] <= hi,
        lo + 11 <= hi ==> spec_notes_in_range(pc, lo, hi).len() > 0,
{
    let q = lo as int / 12;
    let r = lo as int % 12;
    vstd::arithmetic::div_mod::lemma_fundamental_div_mod(lo as int, 12);
    let first = first_at_or_above(pc, lo);
    let base: int = if pc >= r { q } else { q + 1 };
    assert(first == 12 * base + pc) by {
        if pc >= r {
            vstd::arithmetic::div_mod::lemma_fundamental_div_mod_converse_mod(12 + pc - r, 12, 1, pc - r);
        } else {
            vstd::arithmetic::div_mod::lemma_fundamental_div_mod_converse_mod(12 + pc - r, 12, 0, 12 + pc - r);
        }
    }
    let s = spec_notes_in_range(pc, lo, hi);
    assert forall|k: int| 0 <= k < s.len() implies (#[trigger] s[k]) % 12 == pc && lo <= s[k] <= hi by {
        assert((hi - first) / 12 * 12 <= hi - first) by {
            vstd::arithmetic::div_mod::lemma_fundamental_div_mod(hi - first, 12);
        }
        assert(12 * k <= 12 * ((hi - first) / 12)) by (nonlinear_arith)
            requires
                k <= (hi - first) / 12,
        ;
        assert(s[k] == first + 12 * k);
        vstd::arithmetic::div_mod::lemma_fundamental_div_mod_converse_mod(first + 12 * k, 12, base + k, pc as int);
    }
}

/// The placements of a pitch class in a register are every note of that
/// pitch class in the register, ascending 12 apart (so each once), and
/// there is at least one.
pub proof fn lemma_valid_placements(reg: VoiceRegister, pitch_class: u8)
    ensures
        ({
            let s = spec_notes_in_range(pitch_class % 12, reg.spec_lo(), reg.spec_hi());
            &&& s.len() > 0
            &&& forall|k: int|
                0 <= k < s.len() ==> (#[trigger] s[k]) % 12 == pitch_class % 12 && reg.spec_lo() <= s[k]
                    <= reg.spec_hi()
            &&& forall|k: int| 0 <= k < s.len() - 1 ==> #[trigger] s[k + 1] == s[k] + 12
            &&& forall|i: int, j: int| 0 <= i < j < s.len() ==> s[i] < s[j]
            &&& forall|n: u8|
                reg.spec_lo() <= n <= reg.spec_hi() && n % 12 == pitch_class % 12 ==> #[trigger] s.contains(n)
        }),
{
    let pc = pitch_class % 12;
    let lo = reg.spec_lo();
    let hi = reg.spec_hi();
    let s = spec_notes_in_range(pc, lo, hi);
    lemma_notes_in_range_facts(pc, lo, hi);
    let first = first_at_or_above(pc, lo);
    assert(0 <= (12 + pc - (lo % 12)) % 12 < 12);
    assert(first % 12 == pc) by {
        assert(s[0] == first);
    }
    assert forall|i: int, j: int| 0 <= i < j < s.len() implies s[i] < s[j] by {
        assert(s[i] == first + 12 * i);
        assert(s[j] == first + 12 * j);
    }
    assert forall|n: u8| lo <= n <= hi && n % 12 == pc implies #[trigger] s.contains(n) by {
        let d = n - first;
        vstd::arithmetic::div_mod::lemma_fundamental_div_mod(n as int, 12);
        vstd::arithmetic::div_mod::lemma_fundamental_div_mod(first, 12);
        assert(d % 12 == 0) by {
            vstd::arithmetic::div_mod::lemma_fundamental_div_mod_converse_mod(
                d,
                12,
                n as int / 12 - first / 12,
                0,
            );
        }
        vstd::arithmetic::div_mod::lemma_fundamental_div_mod(d, 12);
        let k = d / 12;
        assert(k >= 0);
        assert(12 * k <= hi - first);
        assert(k <= (hi - first) / 12) by {
            vstd::arithmetic::div_mod::lemma_fundamental_div_mod(hi - first, 12);
        }
        assert(s[k] == n);
    }
}

/// What a filtered sequence holds was in the sequence and passes the filter.
proof fn lemma_filter_sub<A>(s: Seq<A>, p: spec_fn(A) -> bool, x: A)
    requires
        s.filter(p).contains(x),
    ensures
        s.contains(x),
        p(x),
    decreases s.len(),
{
    reveal(Seq::filter);
    if s.len() > 0 {
        let sub = s.drop_last().filter(p);
        if p(s.last()) && x == s.last() {
            assert(s[s.len() - 1] == x);
        } else {
            if p(s.last()) {
                let i = choose|i: int| 0 <= i < s.filter(p).len() && s.filter(p)[i] == x;
                assert(sub.push(s.last())[i] == x);
                assert(i < sub.len());
                assert(sub[i] == x);
            }
            assert(sub.contains(x));
            lemma_filter_sub(s.drop_last(), p, x);
            let j = choose|j: int| 0 <= j < s.drop_last().len() && s.drop_last()[j] == x;
            assert(s[j] == x);
        }
    }
}

/// An element passing the filter stays.
proof fn lemma_filter_keeps<A>(s: Seq<A>, p: spec_fn(A) -> bool, x: A)
    requires
        s.contains(x),
        p(x),
    ensures
        s.filter(p).contains(x),
{
    #[allow(deprecated)]
    s.filter_lemma(p);
    let i = choose|i: int| 0 <= i < s.len() && s[i] == x;
    assert(p(s[i]));
}

/// Each combination extending `prev` is a combination of `prev` with one
/// more item of `set`; there is one for each pair.
proof fn lemma_extend_all_member(prev: Seq<Seq<u8>>, set: Seq<u8>, c: Seq<u8>)
    requires
        extend_all(prev, set).contains(c),
    ensures
        exists|p: Seq<u8>, x: u8| prev.contains(p) && set.contains(x) && c == p.push(x),
    decreases prev.len(),
{
    if prev.len() > 0 {
        let a = extend_all(prev.drop_last(), set);
        let b = set.map(|k: int, x: u8| prev.last().push(x));
        let i = choose|i: int| 0 <= i < (a + b).len() && (a + b)[i] == c;
        if i < a.len() {
            assert(a[i] == c);
            lemma_extend_all_member(prev.drop_last(), set, c);
            let (p, x) = choose|p: Seq<u8>, x: u8| prev.drop_last().contains(p) && set.contains(x) && c == p.push(x);
            let j = choose|j: int| 0 <= j < prev.drop_last().len() && prev.drop_last()[j] == p;
            assert(prev[j] == p);
        } else {
            let k = i - a.len();
            assert(b[k] == c);
            assert(set[k] == set[k]);
            assert(prev[prev.len() - 1] == prev.last());
            assert(c == prev.last().push(set[k]));
        }
    }
}

/// A combination has one item of each set, in order.
proof fn lemma_cartesian_member(sets: Seq<Seq<u8>>, c: Seq<u8>)
    requires
        spec_cartesian(sets).contains(c),
    ensures
        c.len() == sets.len(),
        forall|i: int| 0 <= i < sets.len() ==> (#[trigger] sets[i]).contains(c[i]),
    decreases sets.len(),
{
    if sets.len() == 0 {
        let i = choose|i: int| 0 <= i < spec_cartesian(sets).len() && spec_cartesian(sets)[i] == c;
        assert(seq![Seq::<u8>::empty()][i] == c);
    } else {
        lemma_extend_all_member(spec_cartesian(sets.drop_last()), sets.last(), c);
        let (p, x) = choose|p: Seq<u8>, x: u8|
            spec_cartesian(sets.drop_last()).contains(p) && sets.last().contains(x) && c == p.push(x);
        lemma_cartesian_member(sets.drop_last(), p);
        assert forall|i: int| 0 <= i < sets.len() implies (#[trigger] sets[i]).contains(c[i]) by {
            if i < sets.len() - 1 {
                assert(sets.drop_last()[i] == sets[i]);
                assert(c[i] == p[i]);
            } else {
                assert(c[i] == x);
            }
        }
    }
}

/// The product of non-empty sets is non-empty.
proof fn lemma_cartesian_nonempty(sets: Seq<Seq<u8>>)
    requires
        forall|i: int| 0 <= i < sets.len() ==> (#[trigger] sets[i]).len() > 0,
    ensures
        spec_cartesian(sets).len() > 0,
    decreases sets.len(),
{
    if sets.len() > 0 {
        let d = sets.drop_last();
        assert forall|i: int| 0 <= i < d.len() implies (#[trigger] d[i]).len() > 0 by {
            assert(d[i] == sets[i]);
        }
        lemma_cartesian_nonempty(d);
        lemma_extend_all_nonempty(spec_cartesian(d), sets.last());
    }
}

/// Extending a non-empty list of combinations by a non-empty set gives a
/// non-empty list.
proof fn lemma_extend_all_nonempty(prev: Seq<Seq<u8>>, set: Seq<u8>)
    requires
        prev.len() > 0,
        set.len() > 0,
    ensures
        extend_all(prev, set).len() > 0,
{
    let a = extend_all(prev.drop_last(), set);
    let b = set.map(|k: int, x: u8| prev.last().push(x));
    assert(b.len() > 0);
    assert((a + b).len() > 0);
}

/// Without an anchor, every harmony voice has placements in its register,
/// the candidate list is non-empty, and every candidate gives each voice its
/// pitch class within its register.
proof fn lemma_unanchored_sets(pcs: Seq<u8>, registers: Seq<VoiceRegister>)
    ensures
        forall|i: int|
            0 <= i < pcs.len() ==> (#[trigger] spec_all_placements(pcs, registers, None)[i]).len() > 0,
        spec_cartesian(spec_all_placements(pcs, registers, None)).len() > 0,
        forall|c: Seq<u8>|
            #[trigger] spec_cartesian(spec_all_placements(pcs, registers, None)).contains(c) ==> c.len()
                == pcs.len() && forall|i: int|
                0 <= i < pcs.len() ==> c[i] % 12 == pcs[i] % 12 && reg_for(registers, i).spec_lo() <= #[trigger] c[i]
                    <= reg_for(registers, i).spec_hi(),
{
    let sets = spec_all_placements(pcs, registers, None);
    assert forall|i: int| 0 <= i < pcs.len() implies {
        &&& (#[trigger] sets[i]).len() > 0
        &&& forall|x: u8| sets[i].contains(x) ==> x % 12 == pcs[i] % 12 && reg_for(registers, i).spec_lo() <= x
            <= reg_for(registers, i).spec_hi()
    } by {
        let reg = reg_for(registers, i);
        let pc = pcs[i] % 12;
        let notes = spec_notes_in_range(pc, reg.spec_lo(), reg.spec_hi());
        let f = |x: u8| side_ok(0, 0, x);
        lemma_notes_in_range_facts(pc, reg.spec_lo(), reg.spec_hi());
        assert(notes.len() > 0);
        assert(notes.contains(notes[0]));
        lemma_filter_keeps(notes, f, notes[0]);
        assert(sets[i] == notes.filter(f));
        assert forall|x: u8| sets[i].contains(x) implies x % 12 == pcs[i] % 12 && reg.spec_lo() <= x
            <= reg.spec_hi() by {
            lemma_filter_sub(notes, f, x);
            let k = choose|k: int| 0 <= k < notes.len() && notes[k] == x;
        }
    }
    lemma_cartesian_nonempty(sets);
    assert forall|c: Seq<u8>| #[trigger] spec_cartesian(sets).contains(c) implies c.len() == pcs.len() && forall|
        i: int,
    |
        0 <= i < pcs.len() ==> c[i] % 12 == pcs[i] % 12 && reg_for(registers, i).spec_lo() <= #[trigger] c[i]
            <= reg_for(registers, i).spec_hi() by {
        lemma_cartesian_member(sets, c);
        assert forall|i: int| 0 <= i < pcs.len() implies c[i] % 12 == pcs[i] % 12 && reg_for(registers, i).spec_lo()
            <= #[trigger] c[i] <= reg_for(registers, i).spec_hi() by {
            assert(sets[i].contains(c[i]));
        }
    }
}

/// Without an anchor the competing pool is non-empty: the candidates that
/// meet every hard constraint, or all candidates when none does.
proof fn lemma_unanchored_pool(
    pcs: Seq<u8>,
    prev: Option<Seq<u8>>,
    registers: Seq<VoiceRegister>,
    rules: StyleRules,
)
    ensures
        ({
            let cands = spec_cartesian(spec_all_placements(pcs, registers, None));
            let pool = spec_pool(rules, prev, registers, None, cands);
            &&& pool.len() > 0
            &&& forall|c: Seq<u8>| #[trigger] pool.contains(c) ==> cands.contains(c)
            &&& forall|c: Seq<u8>|
                #[trigger] cands.contains(c) ==> (pool.contains(c) <==> (passes(rules, prev, registers, None)(c)
                    || !exists|d: Seq<u8>| cands.contains(d) && passes(rules, prev, registers, None)(d)))
        }),
{
    let cands = spec_cartesian(spec_all_placements(pcs, registers, None));
    let pa = passes(rules, prev, registers, None);
    let fo = fails_only_hard(rules, prev, registers, None);
    let passing = cands.filter(pa);
    let pool = spec_pool(rules, prev, registers, None, cands);
    lemma_unanchored_sets(pcs, registers);
    assert(cands.contains(cands[0]));
    assert forall|c: Seq<u8>| #[trigger] pool.contains(c) implies cands.contains(c) by {
        if passing.len() > 0 {
            lemma_filter_sub(cands, pa, c);
        } else {
            lemma_filter_sub(cands, fo, c);
        }
    }
    if passing.len() > 0 {
        let x = passing[0];
        assert(passing.contains(x));
        lemma_filter_sub(cands, pa, x);
        assert forall|c: Seq<u8>| #[trigger] cands.contains(c) implies (pool.contains(c) <==> (pa(c) || !exists|
            d: Seq<u8>,
        | cands.contains(d) && pa(d))) by {
            if pa(c) {
                lemma_filter_keeps(cands, pa, c);
            }
            if pool.contains(c) {
                lemma_filter_sub(cands, pa, c);
            }
        }
    } else {
        assert forall|d: Seq<u8>| cands.contains(d) implies !pa(d) by {
            if pa(d) {
                lemma_filter_keeps(cands, pa, d);
                let i = choose|i: int| 0 <= i < passing.len() && passing[i] == d;
            }
        }
        assert(fo(cands[0]));
        lemma_filter_keeps(cands, fo, cands[0]);
        assert forall|c: Seq<u8>| #[trigger] cands.contains(c) implies (pool.contains(c) <==> (pa(c) || !exists|
            d: Seq<u8>,
        | cands.contains(d) && pa(d))) by {
            assert(fo(c));
            lemma_filter_keeps(cands, fo, c);
        }
    }
}

/// Without an anchor, a revoicing gives every harmony voice its pitch class
/// within its register (the voice's own register, alto when none is given).
pub proof fn lemma_revoice_in_registers(
    pcs: Seq<u8>,
    prev: Option<Seq<u8>>,
    registers: Seq<VoiceRegister>,
    rules: StyleRules,
    r: Seq<u8>,
)
    requires
        spec_revoiced(pcs, prev, registers, rules, None, r),
    ensures
        r.len() == pcs.len(),
        forall|i: int|
            0 <= i < pcs.len() ==> r[i] % 12 == pcs[i] % 12 && reg_for(registers, i).spec_lo() <= #[trigger] r[i]
                <= reg_for(registers, i).spec_hi(),
{
    if pcs.len() > 0 {
        lemma_unanchored_sets(pcs, registers);
        lemma_unanchored_pool(pcs, prev, registers, rules);
        let cands = spec_cartesian(spec_all_placements(pcs, registers, None));
        let pool = spec_pool(rules, prev, registers, None, cands);
        assert(pool.contains(r));
        assert(cands.contains(r));
    }
}

/// Without an anchor, the revoicing is a candidate of the placement product
/// that meets every hard constraint when one does (any candidate otherwise),
/// and no such candidate scores higher.
pub proof fn lemma_revoice_from_product(
    pcs: Seq<u8>,
    prev: Option<Seq<u8>>,
    registers: Seq<VoiceRegister>,
    rules: StyleRules,
    r: Seq<u8>,
)
    requires
        pcs.len() > 0,
        spec_revoiced(pcs, prev, registers, rules, None, r),
    ensures
        ({
            let cands = spec_cartesian(spec_all_placements(pcs, registers, None));
            let admissible = passes(rules, prev, registers, None);
            let some_admissible = exists|d: Seq<u8>| cands.contains(d) && admissible(d);
            &&& cands.contains(r)
            &&& some_admissible ==> admissible(r)
            &&& forall|c: Seq<u8>|
                #[trigger] cands.contains(c) && (admissible(c) || !some_admissible) ==> spec_judge(
                    rules,
                    prev,
                    registers,
                    None,
                    c,
                ).2 <= spec_judge(rules, prev, registers, None, r).2
        }),
{
    lemma_unanchored_sets(pcs, registers);
    lemma_unanchored_pool(pcs, prev, registers, rules);
    let cands = spec_cartesian(spec_all_placements(pcs, registers, None));
    let pool = spec_pool(rules, prev, registers, None, cands);
    assert(pool.contains(r));
    assert(cands.contains(r));
}

/// A fallback note stays on its voice's side of the anchor note.
proof fn lemma_fallback_side(pc: u8, anchor: Option<&VoiceAnchor>, i: int)
    requires
        anchor_midi(anchor) <= 127,
    ensures
        side_of(anchor, i) == 1 ==> spec_fallback_note(pc, anchor, i) >= anchor_midi(anchor),
        side_of(anchor, i) == 2 ==> spec_fallback_note(pc, anchor, i) <= anchor_midi(anchor),
{
    let m = anchor_midi(anchor);
    let p = pc % 12;
    assert(0 <= (12 + p - (m % 12)) % 12 < 12);
    assert(0 <= ((m % 12) + 12 - p) % 12 < 12);
}

/// With an anchor, no harmony voice of a revoicing crosses the user's note:
/// voices arranged above the user stay at or above it, voices below at or
/// below it, on every path (fallbacks included).
pub proof fn lemma_revoice_respects_anchor(
    pcs: Seq<u8>,
    prev: Option<Seq<u8>>,
    registers: Seq<VoiceRegister>,
    rules: StyleRules,
    a: VoiceAnchor,
    r: Seq<u8>,
)
    requires
        a.midi <= 127,
        spec_revoiced(pcs, prev, registers, rules, Some(&a), r),
    ensures
        r.len() == pcs.len(),
        forall|i: int|
            0 <= i < r.len() && i < a.harmony_arrangement_positions@.len() ==> {
                let hp = a.harmony_arrangement_positions@[i];
                (hp < a.arrangement_pos ==> #[trigger] r[i] >= a.midi) && (hp > a.arrangement_pos ==> r[i] <= a.midi)
            },
{
    let anchor = Some(&a);
    let sets = spec_all_placements(pcs, registers, anchor);
    let cands = spec_cartesian(sets);
    let pool = spec_pool(rules, prev, registers, anchor, cands);
    if pcs.len() == 0 {
    } else if (exists|i: int| 0 <= i < pcs.len() && (#[trigger] sets[i]).len() == 0) || pool.len() == 0 {
        if !(exists|i: int| 0 <= i < pcs.len() && (#[trigger] sets[i]).len() == 0) {
            lemma_cartesian_nonempty(sets);
        }
        assert forall|i: int| 0 <= i < r.len() && i < a.harmony_arrangement_positions@.len() implies {
            let hp = a.harmony_arrangement_positions@[i];
            (hp < a.arrangement_pos ==> #[trigger] r[i] >= a.midi) && (hp > a.arrangement_pos ==> r[i] <= a.midi)
        } by {
            lemma_fallback_side(pcs[i], anchor, i);
        }
    } else {
        lemma_cartesian_nonempty(sets);
        assert(pool.contains(r));
        let pa = passes(rules, prev, registers, anchor);
        let fo = fails_only_hard(rules, prev, registers, anchor);
        if cands.filter(pa).len() > 0 {
            lemma_filter_sub(cands, pa, r);
        } else {
            lemma_filter_sub(cands, fo, r);
        }
        lemma_cartesian_member(sets, r);
        assert(!spec_anchor_rejected(anchor, r));
        assert forall|i: int| 0 <= i < r.len() && i < a.harmony_arrangement_positions@.len() implies {
            let hp = a.harmony_arrangement_positions@[i];
            (hp < a.arrangement_pos ==> #[trigger] r[i] >= a.midi) && (hp > a.arrangement_pos ==> r[i] <= a.midi)
        } by {
            assert(!crosses_anchor(&a, r, i));
        }
    }
}

/// Two sequences of one length are equal or ordered one way or the other
/// from position `k` on.
proof fn lemma_lex_total(a: Seq<u8>, b: Seq<u8>, k: int)
    requires
        a.len() == b.len(),
        0 <= k <= a.len(),
    ensures
        lex_less(a, b, k) || lex_less(b, a, k) || forall|i: int| k <= i < a.len() ==> a[i] == b[i],
    decreases a.len() - k,
{
    if k < a.len() && a[k] == b[k] {
        lemma_lex_total(a, b, k + 1);
        assert forall|i: int| k <= i < a.len() && (forall|j: int| k + 1 <= j < a.len() ==> a[j] == b[j]) implies a[i]
            == b[i] by {
            if i > k {
                assert(a[i] == b[i]);
            }
        }
    }
}

/// Revoicing is deterministic: the inputs fix the result. Equal scores are
/// broken by more common tones, more downward steps, more upward steps,
/// less total movement, then the lowest notes in order.
pub proof fn lemma_revoice_deterministic(
    pcs: Seq<u8>,
    prev: Option<Seq<u8>>,
    registers: Seq<VoiceRegister>,
    rules: StyleRules,
    anchor: Option<&VoiceAnchor>,
    r1: Seq<u8>,
    r2: Seq<u8>,
)
    requires
        spec_revoiced(pcs, prev, registers, rules, anchor, r1),
        spec_revoiced(pcs, prev, registers, rules, anchor, r2),
    ensures
        r1 == r2,
{
    let sets = spec_all_placements(pcs, registers, anchor);
    let cands = spec_cartesian(sets);
    let pool = spec_pool(rules, prev, registers, anchor, cands);
    if pcs.len() > 0 && !(exists|i: int| 0 <= i < pcs.len() && (#[trigger] sets[i]).len() == 0) && cands.len() > 0
        && pool.len() > 0 {
        assert(pool.contains(r1) && pool.contains(r2));
        let pa = passes(rules, prev, registers, anchor);
        let fo = fails_only_hard(rules, prev, registers, anchor);
        if cands.filter(pa).len() > 0 {
            lemma_filter_sub(cands, pa, r1);
            lemma_filter_sub(cands, pa, r2);
        } else {
            lemma_filter_sub(cands, fo, r1);
            lemma_filter_sub(cands, fo, r2);
        }
        lemma_cartesian_member(sets, r1);
        lemma_cartesian_member(sets, r2);
        let s1 = spec_judge(rules, prev, registers, anchor, r1).2;
        let s2 = spec_judge(rules, prev, registers, anchor, r2).2;
        assert(!spec_better(s1, r1, s2, r2, prev));
        assert(!spec_better(s2, r2, s1, r1, prev));
        lemma_lex_total(r1, r2, 0);
        assert(r1 =~= r2);
    } else if pcs.len() > 0 && !(exists|i: int| 0 <= i < pcs.len() && (#[trigger] sets[i]).len() == 0) && cands.len()
        == 0 {
        assert(r1 =~= r2);
    }
}

/// Revoices harmony pitch classes into a complete chord voicing.
///
/// - `harmony_pitch_classes`: pitch class of each harmony voice
/// - `prev_voicing`: previous chord (index 0 = melody, 1+ = harmony), if any
/// - `registers`: register per voice (index 0 = melody placeholder)
/// - `style_rules`: style constraints
/// - `anchor`: the user's note and arrangement positions, constraining each
///   harmony voice to its side of the user's note
///
/// Returns one MIDI note per harmony voice: the best candidate voicing (see
/// `spec_better`) among those passing all checks (or, if none does, those
/// failing only hard constraints); a fallback voicing when no placement or no
/// candidate exists.
pub fn revoice_chord(
    harmony_pitch_classes: &[u8],
    prev_voicing: Option<&[u8]>,
    registers: &[VoiceRegister],
    style_rules: &StyleRules,
    anchor: Option<&VoiceAnchor>,
) -> (r: Vec<u8>)
    requires
        anchor is None ==> (prev_voicing matches Some(p) ==> p@.len() > 0),
        anchor_midi(anchor) <= 127,
    ensures
        spec_revoiced(harmony_pitch_classes@, opt_view(prev_voicing), registers@, *style_rules, anchor, r@),
{
    let n = harmony_pitch_classes.len();
    if n == 0 {
        return Vec::new();
    }
    let ghost pcs = harmony_pitch_classes@;
    let ghost prev = opt_view(prev_voicing);
    let ghost sets = spec_all_placements(pcs, registers@, anchor);
    let mut placements: Vec<Vec<u8>> = Vec::new();
    let mut any_empty = false;
    let mut i: usize = 0;
    while i < n
        invariant
            i <= n,
            n == pcs.len(),
            pcs == harmony_pitch_classes@,
            anchor_midi(anchor) <= 127,
            sets == spec_all_placements(pcs, registers@, anchor),
            placements@.len() == i,
            forall|k: int| 0 <= k < i ==> (#[trigger] placements@[k])@ == sets[k],
            any_empty == (exists|k: int| 0 <= k < i && (#[trigger] sets[k]).len() == 0),
        decreases n - i,
    {
        let p = voice_placements(harmony_pitch_classes, registers, anchor, i);
        if p.len() == 0 {
            any_empty = true;
        }
        placements.push(p);
        proof {
            assert(sets[i as int] == spec_placements(pcs, registers@, anchor, i as int));
            if !any_empty {
                assert forall|k: int| 0 <= k < i + 1 implies (#[trigger] sets[k]).len() != 0 by {}
            }
        }
        i = i + 1;
    }
    if any_empty {
        return fallback_voicing(harmony_pitch_classes, anchor);
    }
    assert(placements@.map_values(|s: Vec<u8>| s@) =~= sets);
    let candidates = cartesian_product(&placements);
    let ghost cands = spec_cartesian(sets);
    if candidates.len() == 0 {
        let mut r: Vec<u8> = Vec::new();
        let mut k: usize = 0;
        while k < n
            invariant
                k <= n,
                n == pcs.len(),
                pcs == harmony_pitch_classes@,
                r@.len() == k,
                forall|t: int| 0 <= t < k ==> r@[t] == (60 + pcs[t] % 12) as u8,
            decreases n - k,
        {
            r.push(60 + harmony_pitch_classes[k] % 12);
            k = k + 1;
        }
        assert(r@ =~= Seq::new(pcs.len(), |i: int| (60 + pcs[i] % 12) as u8));
        return r;
    }
    let melody_note: u8 = match anchor {
        Some(a) => a.midi,
        None => match prev_voicing {
            Some(p) => p[0],
            None => 72,
        },
    };
    let ghost pp = passes(*style_rules, prev, registers@, anchor);
    let ghost rp = fails_only_hard(*style_rules, prev, registers@, anchor);
    // Best candidate so far among those passing, and among those failing
    // only hard constraints: (score, index).
    let mut best_pass: Option<(i128, usize)> = None;
    let mut best_rej: Option<(i128, usize)> = None;
    let mut ci: usize = 0;
    while ci < candidates.len()
        invariant
            ci <= candidates@.len(),
            candidates@.len() == cands.len(),
            forall|i: int| 0 <= i < candidates@.len() ==> (#[trigger] candidates@[i])@ == cands[i],
            pp == passes(*style_rules, prev, registers@, anchor),
            rp == fails_only_hard(*style_rules, prev, registers@, anchor),
            melody_note == spec_melody_note(anchor, prev),
            prev == opt_view(prev_voicing),
            match best_pass {
                None => cands.take(ci as int).filter(pp).len() == 0,
                Some((s, b)) => b < ci && s == spec_judge(*style_rules, prev, registers@, anchor, cands[b as int]).2
                    && is_best(*style_rules, prev, registers@, anchor, cands.take(ci as int).filter(pp), cands[b as int]),
            },
            match best_rej {
                None => cands.take(ci as int).filter(rp).len() == 0,
                Some((s, b)) => b < ci && s == spec_judge(*style_rules, prev, registers@, anchor, cands[b as int]).2
                    && is_best(*style_rules, prev, registers@, anchor, cands.take(ci as int).filter(rp), cands[b as int]),
            },
        decreases candidates@.len() - ci,
    {
        let candidate = &candidates[ci];
        let (anchor_rej, hard, score) = judge_candidate(
            style_rules,
            prev_voicing,
            registers,
            anchor,
            melody_note,
            candidate,
        );
        let ghost c = cands[ci as int];
        proof {
            assert(candidate@ == c);
            cands.take(ci as int).lemma_filter_push(c, pp);
            cands.take(ci as int).lemma_filter_push(c, rp);
            assert(cands.take(ci as int).push(c) =~= cands.take(ci + 1));
        }
        if !anchor_rej && !hard {
            match best_pass {
                None => {
                    proof {
                        assert(cands.take(ci as int).filter(pp) =~= Seq::<Seq<u8>>::empty());
                        lemma_best_single(*style_rules, prev, registers@, anchor, cands.take(ci as int).filter(pp), c);
                    }
                    best_pass = Some((score, ci));
                },
                Some((s, b)) => {
                    let replace = is_better(score, candidate, s, &candidates[b], prev_voicing);
                    proof {
                        lemma_best_push(*style_rules, prev, registers@, anchor, cands.take(ci as int).filter(pp), cands[b as int], c);
                    }
                    if replace {
                        best_pass = Some((score, ci));
                    }
                },
            }
        } else if !anchor_rej {
            match best_rej {
                None => {
                    proof {
                        assert(cands.take(ci as int).filter(rp) =~= Seq::<Seq<u8>>::empty());
                        lemma_best_single(*style_rules, prev, registers@, anchor, cands.take(ci as int).filter(rp), c);
                    }
                    best_rej = Some((score, ci));
                },
                Some((s, b)) => {
                    let replace = is_better(score, candidate, s, &candidates[b], prev_voicing);
                    proof {
                        lemma_best_push(*style_rules, prev, registers@, anchor, cands.take(ci as int).filter(rp), cands[b as int], c);
                    }
                    if replace {
                        best_rej = Some((score, ci));
                    }
                },
            }
        }
        ci = ci + 1;
    }
    assert(cands.take(cands.len() as int) =~= cands);
    match best_pass {
        Some((_, b)) => candidates[b].clone(),
        None => match best_rej {
            Some((_, b)) => candidates[b].clone(),
            None => fallback_voicing(harmony_pitch_classes, anchor),
        },
    }
}

} // verus!
