//! Stateful harmony modes that track previous notes: contrary motion
//! (mode 6) and note-against-note counterpoint (mode 7).

use vstd::prelude::*;

use crate::harmony::config::lemma_intervals_well_formed;
use crate::harmony::scale::{
    degree_index, in_scale, spec_transpose_chromatic, spec_transpose_diatonic, Scale, ScaleView, MIDI_MAX,
};
use crate::harmony::modes::{is_voice_pair, spec_pair};

verus! {

/// Direction of melodic motion between two notes.
#[derive(Debug, Clone, Copy, PartialEq, Eq, Structural)]
pub enum MelodicDirection {
    Ascending,
    Descending,
    Static,
}

/// Size of the interval history window.
pub const INTERVAL_HISTORY_SIZE: usize = 4;
/// Size of the melodic contour window.
pub const CONTOUR_HISTORY_SIZE: usize = 3;
/// Harmony range (semitones) at or below which the range counts as narrow.
pub const NARROW_RANGE_THRESHOLD: u8 = 7;

// ---------------------------------------------------------------------------
// Contrary motion
// ---------------------------------------------------------------------------

/// Abstract state of the contrary-motion mode.
pub struct ContraryView {
    pub last_melody: Option<u8>,
    pub last_harmony: Option<u8>,
    /// Direction (-1 or +1) used the next time the melody repeats.
    pub repeat_direction: i8,
}

/// Contrary-motion state with no history.
pub open spec fn contrary_initial() -> ContraryView {
    ContraryView { last_melody: None, last_harmony: None, repeat_direction: -1i8 }
}

/// Moves a harmony note one diatonic step (or two semitones if chromatic).
pub open spec fn contrary_move(sc: ScaleView, last: u8, step: int) -> Option<u8> {
    if in_scale(sc.tonic, sc.mode, last) {
        spec_transpose_diatonic(sc.tonic, sc.mode, last, step)
    } else {
        spec_transpose_chromatic(last, step * 2)
    }
}

/// One contrary-motion step. `above` is `None` for the undirected mode (first
/// harmony a third below) or the direction of the first harmony otherwise.
/// Returns the notes, the new state and the new scale state.
pub open spec fn contrary_step(
    st: ContraryView,
    sc: ScaleView,
    melody: u8,
    above: Option<bool>,
) -> (Seq<u8>, ContraryView, ScaleView) {
    let (harmony, sc2, rep): (Option<u8>, ScaleView, i8) = match st.last_melody {
        None => {
            let up = match above {
                Some(a) => a,
                None => false,
            };
            let deg: int = if up { 2 } else { -2 };
            let (h, b) = sc.smart_harmony(melody, deg, up);
            (h, sc.with_borrowed(b), st.repeat_direction)
        },
        Some(prev) => {
            let last = match st.last_harmony {
                Some(h) => h,
                None => melody,
            };
            if melody > prev {
                (contrary_move(sc, last, -1), sc, st.repeat_direction)
            } else if melody < prev {
                (contrary_move(sc, last, 1), sc, st.repeat_direction)
            } else {
                (contrary_move(sc, last, st.repeat_direction as int), sc, (-st.repeat_direction) as i8)
            }
        },
    };
    let st2 = ContraryView {
        last_melody: Some(melody),
        last_harmony: match harmony {
            Some(h) => Some(h),
            None => st.last_harmony,
        },
        repeat_direction: rep,
    };
    (spec_pair(melody, harmony), st2, sc2)
}

/// State for mode 6: the harmony moves opposite to the melody.
#[derive(Debug)]
pub struct ContraryMotionState {
    last_melody: Option<u8>,
    last_harmony: Option<u8>,
    repeat_direction: i8,
}

impl View for ContraryMotionState {
    type V = ContraryView;

    closed spec fn view(&self) -> ContraryView {
        ContraryView {
            last_melody: self.last_melody,
            last_harmony: self.last_harmony,
            repeat_direction: self.repeat_direction,
        }
    }
}

impl ContraryMotionState {
    #[verifier::type_invariant]
    spec fn inv(self) -> bool {
        &&& self.repeat_direction == 1 || self.repeat_direction == -1
        &&& self.last_melody matches Some(m) ==> m <= 127
        &&& self.last_harmony matches Some(h) ==> h <= 127
    }

    /// Creates a state with no history.
    pub fn new() -> (s: Self)
        ensures
            s@ == contrary_initial(),
    {
        ContraryMotionState { last_melody: None, last_harmony: None, repeat_direction: -1 }
    }

    /// Forgets all history (e.g. on a key or mode change).
    pub fn reset(&mut self)
        ensures
            final(self)@ == contrary_initial(),
    {
        proof {
            use_type_invariant(&*self);
        }
        self.last_melody = None;
        self.last_harmony = None;
        self.repeat_direction = -1;
    }

    /// The last melody note processed.
    pub fn last_melody(&self) -> (r: Option<u8>)
        ensures
            r == self@.last_melody,
    {
        self.last_melody
    }

    /// The last harmony note produced.
    pub fn last_harmony(&self) -> (r: Option<u8>)
        ensures
            r == self@.last_harmony,
    {
        self.last_harmony
    }

    fn step(&mut self, scale: &mut Scale, melody: u8, above: Option<bool>) -> (r: Vec<u8>)
        requires
            melody <= MIDI_MAX,
        ensures
            is_voice_pair(r@, melody),
            (r@, final(self)@, final(scale)@) == contrary_step(old(self)@, old(scale)@, melody, above),
    {
        proof {
            use_type_invariant(&*self);
        }
        let harmony = match self.last_melody {
            None => {
                let up = match above {
                    Some(a) => a,
                    None => false,
                };
                let deg: i8 = if up {
                    2
                } else {
                    -2
                };
                scale.harmonize_smart(melody, deg, up)
            },
            Some(prev) => {
                let last = match self.last_harmony {
                    Some(h) => h,
                    None => melody,
                };
                if melody > prev {
                    if scale.is_in_scale(last) {
                        scale.transpose_diatonic(last, -1)
                    } else {
                        scale.transpose_chromatic(last, -2)
                    }
                } else if melody < prev {
                    if scale.is_in_scale(last) {
                        scale.transpose_diatonic(last, 1)
                    } else {
                        scale.transpose_chromatic(last, 2)
                    }
                } else {
                    let step = self.repeat_direction;
                    self.repeat_direction = -self.repeat_direction;
                    if scale.is_in_scale(last) {
                        scale.transpose_diatonic(last, step)
                    } else {
                        scale.transpose_chromatic(last, step * 2)
                    }
                }
            },
        };
        self.last_melody = Some(melody);
        match harmony {
            Some(h) => {
                self.last_harmony = Some(h);
                let v = vec![melody, h];
                assert(v@ =~= seq![melody, h]);
                v
            },
            None => {
                let v = vec![melody];
                assert(v@ =~= seq![melody]);
                v
            },
        }
    }

    /// Processes a melody note with contrary motion. The first harmony is a
    /// third below; afterwards the harmony steps against the melody's
    /// direction, alternating direction when the melody repeats.
    /// Returns [melody, harmony], or [melody] if the harmony is out of range.
    pub fn process(&mut self, scale: &mut Scale, melody: u8) -> (r: Vec<u8>)
        requires
            melody <= MIDI_MAX,
        ensures
            is_voice_pair(r@, melody),
            (r@, final(self)@, final(scale)@) == contrary_step(old(self)@, old(scale)@, melody, None),
    {
        self.step(scale, melody, None)
    }

    /// Like `process`, but the first harmony is a third above (`above`) or below.
    pub fn process_directed(&mut self, scale: &mut Scale, melody: u8, above: bool) -> (r: Vec<u8>)
        requires
            melody <= MIDI_MAX,
        ensures
            is_voice_pair(r@, melody),
            (r@, final(self)@, final(scale)@) == contrary_step(old(self)@, old(scale)@, melody, Some(above)),
    {
        self.step(scale, melody, Some(above))
    }
}

// ---------------------------------------------------------------------------
// Counterpoint
// ---------------------------------------------------------------------------

/// Abstract state of the counterpoint mode.
pub struct CounterpointView {
    pub last_melody: Option<u8>,
    pub last_harmony: Option<u8>,
    /// The most recent interval classes, oldest first (at most 4).
    pub interval_history: Seq<i8>,
    /// The most recent melodic directions, oldest first (at most 3).
    pub melody_contour: Seq<MelodicDirection>,
    pub harmony_range_low: Option<u8>,
    pub harmony_range_high: Option<u8>,
}

/// Counterpoint state with no history.
pub open spec fn counterpoint_initial() -> CounterpointView {
    CounterpointView {
        last_melody: None,
        last_harmony: None,
        interval_history: Seq::empty(),
        melody_contour: Seq::empty(),
        harmony_range_low: None,
        harmony_range_high: None,
    }
}

/// Direction from one note to another.
pub open spec fn spec_direction(from: u8, to: u8) -> MelodicDirection {
    if to > from {
        MelodicDirection::Ascending
    } else if to < from {
        MelodicDirection::Descending
    } else {
        MelodicDirection::Static
    }
}

/// Appends to a sliding window of the given size, dropping the oldest entry.
pub open spec fn window_push<A>(s: Seq<A>, x: A, size: nat) -> Seq<A> {
    if s.len() >= size {
        s.drop_first().push(x)
    } else {
        s.push(x)
    }
}

/// Number of occurrences of `x` in `s`.
pub open spec fn count_of<A>(s: Seq<A>, x: A) -> nat
    decreases s.len(),
{
    if s.len() == 0 {
        0
    } else {
        count_of(s.drop_last(), x) + if s.last() == x { 1nat } else { 0nat }
    }
}

/// The majority direction of the contour (needs at least 2 entries).
pub open spec fn spec_dominant_contour(c: Seq<MelodicDirection>) -> Option<MelodicDirection> {
    if c.len() < 2 {
        None
    } else {
        let threshold = (c.len() + 1) / 2;
        if count_of(c, MelodicDirection::Ascending) >= threshold {
            Some(MelodicDirection::Ascending)
        } else if count_of(c, MelodicDirection::Descending) >= threshold {
            Some(MelodicDirection::Descending)
        } else {
            None
        }
    }
}

/// Interval class (0-11) between two notes.
pub open spec fn spec_interval_class(a: u8, b: u8) -> int {
    if a > b {
        (a - b) % 12
    } else {
        (b - a) % 12
    }
}

/// Generic interval size (unison, 2nd, 3rd, ...) of a semitone distance.
pub open spec fn spec_semitones_to_class(semitones: int) -> i8 {
    let n = (if semitones < 0 { -semitones } else { semitones }) % 12;
    if n == 0 {
        0
    } else if n == 1 || n == 2 {
        2
    } else if n == 3 || n == 4 {
        3
    } else if n == 5 || n == 6 {
        4
    } else if n == 7 {
        5
    } else if n == 8 || n == 9 {
        6
    } else {
        7
    }
}

/// Width of the harmony range seen so far.
pub open spec fn spec_harmony_range(st: CounterpointView) -> Option<int> {
    match (st.harmony_range_low, st.harmony_range_high) {
        (Some(lo), Some(hi)) => Some(hi - lo),
        _ => None,
    }
}

/// Whether the harmony range is narrow (at most a fifth).
pub open spec fn spec_range_narrow(st: CounterpointView) -> bool {
    match spec_harmony_range(st) {
        Some(r) => r <= 7,
        None => false,
    }
}

/// Absolute difference of two notes.
pub open spec fn note_dist(a: u8, b: u8) -> int {
    if a >= b {
        a - b
    } else {
        b - a
    }
}

/// Voice-leading score of a candidate; -100 for a hard rejection
/// (parallel perfect interval, or a static harmony over a repeated melody).
pub open spec fn spec_score(st: CounterpointView, melody: u8, cand: u8, interval: int) -> int {
    let parallel_perfect = match (st.last_melody, st.last_harmony) {
        (Some(pm), Some(ph)) => {
            let pi = spec_interval_class(pm, ph);
            (pi == 0 || pi == 7) && pi == spec_interval_class(melody, cand)
        },
        _ => false,
    };
    let static_voice = match (st.last_melody, st.last_harmony) {
        (Some(pm), Some(ph)) => melody == pm && cand == ph,
        _ => false,
    };
    if parallel_perfect || static_voice {
        -100
    } else {
        let different: int = match st.last_harmony {
            Some(ph) => if cand != ph { 3 } else { 0 },
            None => 0,
        };
        let step: int = match st.last_harmony {
            Some(ph) => {
                let d = note_dist(cand, ph);
                if d == 1 || d == 2 { 4 } else if d == 3 || d == 4 { 2 } else { 0 }
            },
            None => 0,
        };
        let cls = spec_semitones_to_class(cand - melody);
        let overused: int = if count_of(st.interval_history, cls) >= 3 { -3 } else { 0 };
        let fresh: int = if !st.interval_history.contains(cls) { 2 } else { 0 };
        let contour: int = match (spec_dominant_contour(st.melody_contour), st.last_harmony) {
            (Some(dom), Some(ph)) => {
                let hd = spec_direction(ph, cand);
                if (dom == MelodicDirection::Ascending && hd == MelodicDirection::Descending) || (dom
                    == MelodicDirection::Descending && hd == MelodicDirection::Ascending) {
                    3
                } else if (dom == MelodicDirection::Ascending && hd == MelodicDirection::Ascending) || (
                dom == MelodicDirection::Descending && hd == MelodicDirection::Descending) {
                    -1
                } else {
                    0
                }
            },
            _ => 0,
        };
        let expand: int = match st.last_harmony {
            Some(ph) => if spec_range_narrow(st) && note_dist(cand, ph) >= 5 { 2 } else { 0 },
            None => 0,
        };
        let a = if interval < 0 { -interval } else { interval };
        let third_sixth: int = if a == 2 || a == 5 { 1 } else { 0 };
        different + step + overused + fresh + contour + expand + third_sixth
    }
}

/// The melodic-contour part of a counterpoint score: with a dominant recent
/// melodic direction and a previous harmony, a candidate moving against
/// that direction gains 3 and one moving with it loses 1, against the same
/// candidate scored with no contour history; otherwise the contour changes
/// nothing. So of two candidates that score alike without contour, the
/// contrary one wins by 4.
pub proof fn lemma_contour_rewards_contrary(st: CounterpointView, melody: u8, cand: u8, interval: int)
    ensures
        ({
            let flat = CounterpointView { melody_contour: Seq::empty(), ..st };
            let base = spec_score(flat, melody, cand, interval);
            let bonus: int = match (spec_dominant_contour(st.melody_contour), st.last_harmony) {
                (Some(dom), Some(ph)) => if (dom == MelodicDirection::Ascending && cand < ph) || (dom
                    == MelodicDirection::Descending && cand > ph) {
                    3
                } else if (dom == MelodicDirection::Ascending && cand > ph) || (dom == MelodicDirection::Descending
                    && cand < ph) {
                    -1
                } else {
                    0
                },
                _ => 0,
            };
            spec_score(st, melody, cand, interval) == if base == -100 {
                -100
            } else {
                base + bonus
            }
        }),
{
    let flat = CounterpointView { melody_contour: Seq::<MelodicDirection>::empty(), ..st };
    assert(spec_dominant_contour(flat.melody_contour) is None);
    assert(spec_range_narrow(flat) == spec_range_narrow(st)) by {
        assert(spec_harmony_range(flat) == spec_harmony_range(st));
    }
}

/// A contrary-motion move by one step goes the way of the step: up for
/// `+1`, down for `-1` (a scale degree for an in-key note, two semitones
/// otherwise).
proof fn lemma_contrary_move_direction(sc: ScaleView, last: u8, step: int)
    requires
        step == 1 || step == -1,
    ensures
        contrary_move(sc, last, step) matches Some(x) ==> (step == 1 ==> x > last) && (step == -1 ==> x < last),
{
    if in_scale(sc.tonic, sc.mode, last) {
        lemma_intervals_well_formed(sc.mode);
        let iv = sc.mode.spec_intervals();
        let len = iv.len() as int;
        let cur = degree_index(sc.tonic, sc.mode, last);
        reveal(in_scale);
        assert(0 <= cur < len);
        let total = cur + step;
        if total == len {
            vstd::arithmetic::div_mod::lemma_fundamental_div_mod_converse(total, len, 1, 0);
            assert(iv[cur] < 12);
        } else if total == -1 {
            vstd::arithmetic::div_mod::lemma_fundamental_div_mod_converse(total, len, -1, len - 1);
            assert(iv[len - 1] < 12);
        } else {
            vstd::arithmetic::div_mod::lemma_fundamental_div_mod_converse(total, len, 0, total);
            if step == 1 {
                assert(iv[cur] < iv[total]);
            } else {
                assert(iv[total] < iv[cur]);
            }
        }
    }
}

/// Over a repeated melody note the harmony alternates direction: of two
/// consecutive contrary-motion steps on the same repeated note, each moving
/// the harmony, the second goes the opposite way to the first, and the
/// repeat direction is back where it started.
pub proof fn lemma_repeat_alternates(st: ContraryView, sc: ScaleView, melody: u8, above: Option<bool>, h0: u8)
    requires
        st.last_melody == Some(melody),
        st.last_harmony == Some(h0),
        st.repeat_direction == 1 || st.repeat_direction == -1,
    ensures
        ({
            let (o1, st1, sc1) = contrary_step(st, sc, melody, above);
            let (o2, st2, sc2) = contrary_step(st1, sc1, melody, above);
            &&& st1.repeat_direction == -st.repeat_direction
            &&& st2.repeat_direction == st.repeat_direction
            &&& o1.len() == 2 && o2.len() == 2 ==> (o1[1] > h0 && o2[1] < o1[1]) || (o1[1] < h0 && o2[1] > o1[1])
        }),
{
    let (o1, st1, sc1) = contrary_step(st, sc, melody, above);
    lemma_contrary_move_direction(sc, h0, st.repeat_direction as int);
    assert(sc1 == sc);
    if o1.len() == 2 {
        assert(st1.last_harmony == Some(o1[1]));
        lemma_contrary_move_direction(sc, o1[1], st1.repeat_direction as int);
    }
}

/// Diatonic candidate steps (3rds and 6ths first, then 4ths and 5ths).
pub open spec fn diatonic_candidates(above: Option<bool>) -> Seq<int> {
    match above {
        None => seq![-2, -5, 2, 5, -3, -4, 3, 4],
        Some(true) => seq![2, 5, 3, 4],
        Some(false) => seq![-2, -5, -3, -4],
    }
}

/// Chromatic candidate intervals in semitones (3rds and 6ths).
pub open spec fn chromatic_candidates(above: Option<bool>) -> Seq<int> {
    match above {
        None => seq![-3, -4, 3, 4, -8, -9, 8, 9],
        Some(true) => seq![3, 4, 8, 9],
        Some(false) => seq![-3, -4, -8, -9],
    }
}

/// Best-scoring diatonic candidate among `ivs[k..]`, continuing from `best`
/// (earlier candidates win ties; negative scores are rejected).
pub open spec fn best_diatonic(
    st: CounterpointView,
    sc: ScaleView,
    melody: u8,
    ivs: Seq<int>,
    k: int,
    best: Option<(u8, int)>,
) -> Option<(u8, int)>
    decreases ivs.len() - k,
{
    if k < 0 || k >= ivs.len() {
        best
    } else {
        let next = match spec_transpose_diatonic(sc.tonic, sc.mode, melody, ivs[k]) {
            Some(c) => {
                let s = spec_score(st, melody, c, ivs[k]);
                if s < 0 {
                    best
                } else {
                    match best {
                        None => Some((c, s)),
                        Some((_, bs)) => if s > bs { Some((c, s)) } else { best },
                    }
                }
            },
            None => best,
        };
        best_diatonic(st, sc, melody, ivs, k + 1, next)
    }
}

/// Best-scoring chromatic candidate among `ivs[k..]`, with a bonus for
/// candidates on a scale tone.
pub open spec fn best_chromatic(
    st: CounterpointView,
    sc: ScaleView,
    melody: u8,
    ivs: Seq<int>,
    k: int,
    best: Option<(u8, int)>,
) -> Option<(u8, int)>
    decreases ivs.len() - k,
{
    if k < 0 || k >= ivs.len() {
        best
    } else {
        let next = match spec_transpose_chromatic(melody, ivs[k]) {
            Some(c) => {
                let approx = ivs[k] / 2 + if ivs[k] < 0 && ivs[k] % 2 != 0 { 1int } else { 0int };
                let s = spec_score(st, melody, c, approx) + if in_scale(sc.tonic, sc.mode, c) {
                    3int
                } else {
                    0int
                };
                if s < 0 {
                    best
                } else {
                    match best {
                        None => Some((c, s)),
                        Some((_, bs)) => if s > bs { Some((c, s)) } else { best },
                    }
                }
            },
            None => best,
        };
        best_chromatic(st, sc, melody, ivs, k + 1, next)
    }
}

/// One counterpoint step: the notes produced and the new state.
pub open spec fn counterpoint_step(st: CounterpointView, sc: ScaleView, melody: u8, above: Option<bool>) -> (
    Seq<u8>,
    CounterpointView,
) {
    let contour = match st.last_melody {
        Some(pm) => window_push(st.melody_contour, spec_direction(pm, melody), 3),
        None => st.melody_contour,
    };
    let st1 = CounterpointView { melody_contour: contour, ..st };
    let best = if in_scale(sc.tonic, sc.mode, melody) {
        best_diatonic(st1, sc, melody, diatonic_candidates(above), 0, None)
    } else {
        best_chromatic(st1, sc, melody, chromatic_candidates(above), 0, None)
    };
    match best {
        Some((h, _)) => (
            seq![melody, h],
            CounterpointView {
                last_melody: Some(melody),
                last_harmony: Some(h),
                interval_history: window_push(st1.interval_history, spec_semitones_to_class(h - melody), 4),
                melody_contour: contour,
                harmony_range_low: Some(
                    match st.harmony_range_low {
                        Some(lo) => if h < lo { h } else { lo },
                        None => h,
                    },
                ),
                harmony_range_high: Some(
                    match st.harmony_range_high {
                        Some(hi) => if h > hi { h } else { hi },
                        None => h,
                    },
                ),
            },
        ),
        None => (
            seq![melody],
            CounterpointView { last_melody: Some(melody), last_harmony: None, ..st1 },
        ),
    }
}

/// State for mode 7: note-against-note counterpoint with voice-leading scoring.
#[derive(Debug)]
pub struct CounterpointState {
    last_melody: Option<u8>,
    last_harmony: Option<u8>,
    interval_history: Vec<i8>,
    melody_contour: Vec<MelodicDirection>,
    harmony_range: Option<(u8, u8)>,
}

impl View for CounterpointState {
    type V = CounterpointView;

    closed spec fn view(&self) -> CounterpointView {
        CounterpointView {
            last_melody: self.last_melody,
            last_harmony: self.last_harmony,
            interval_history: self.interval_history@,
            melody_contour: self.melody_contour@,
            harmony_range_low: match self.harmony_range {
                Some((lo, _)) => Some(lo),
                None => None,
            },
            harmony_range_high: match self.harmony_range {
                Some((_, hi)) => Some(hi),
                None => None,
            },
        }
    }
}

/// Exec form of `spec_direction`.
fn direction_between(from: u8, to: u8) -> (r: MelodicDirection)
    ensures
        r == spec_direction(from, to),
{
    if to > from {
        MelodicDirection::Ascending
    } else if to < from {
        MelodicDirection::Descending
    } else {
        MelodicDirection::Static
    }
}

/// Exec form of `spec_semitones_to_class`.
fn semitones_to_interval_class(semitones: i16) -> (r: i8)
    requires
        -300 <= semitones <= 300,
    ensures
        r == spec_semitones_to_class(semitones as int),
{
    let a: i16 = if semitones < 0 {
        -semitones
    } else {
        semitones
    };
    let n = a % 12;
    if n == 0 {
        0
    } else if n == 1 || n == 2 {
        2
    } else if n == 3 || n == 4 {
        3
    } else if n == 5 || n == 6 {
        4
    } else if n == 7 {
        5
    } else if n == 8 || n == 9 {
        6
    } else {
        7
    }
}

/// Exec form of `spec_interval_class`.
fn interval_class(a: u8, b: u8) -> (r: u8)
    ensures
        r == spec_interval_class(a, b),
{
    if a > b {
        (a - b) % 12
    } else {
        (b - a) % 12
    }
}

/// Counts the occurrences of `x` in `s`.
fn count_i8(s: &Vec<i8>, x: i8) -> (r: usize)
    ensures
        r == count_of(s@, x),
{
    let mut c: usize = 0;
    let mut i: usize = 0;
    while i < s.len()
        invariant
            i <= s@.len(),
            c == count_of(s@.take(i as int), x),
            c <= i,
        decreases s@.len() - i,
    {
        assert(s@.take(i + 1).drop_last() =~= s@.take(i as int));
        if s[i] == x {
            c = c + 1;
        }
        i = i + 1;
    }
    assert(s@.take(s@.len() as int) =~= s@);
    c
}

/// Counts the occurrences of `x` in `s`.
fn count_direction(s: &Vec<MelodicDirection>, x: MelodicDirection) -> (r: usize)
    ensures
        r == count_of(s@, x),
{
    let mut c: usize = 0;
    let mut i: usize = 0;
    while i < s.len()
        invariant
            i <= s@.len(),
            c == count_of(s@.take(i as int), x),
            c <= i,
        decreases s@.len() - i,
    {
        assert(s@.take(i + 1).drop_last() =~= s@.take(i as int));
        if s[i] == x {
            c = c + 1;
        }
        i = i + 1;
    }
    assert(s@.take(s@.len() as int) =~= s@);
    c
}

/// A sliding window with `x` appended, dropping the oldest entry when full.
fn pushed_window<A: Copy>(s: &Vec<A>, x: A, size: usize) -> (r: Vec<A>)
    requires
        size > 0,
        s@.len() <= size,
    ensures
        r@ == window_push(s@, x, size as nat),
        r@.len() <= size,
{
    let start: usize = if s.len() >= size {
        1
    } else {
        0
    };
    let mut r: Vec<A> = Vec::new();
    let mut i: usize = start;
    while i < s.len()
        invariant
            start <= i <= s@.len(),
            r@ == s@.subrange(start as int, i as int),
        decreases s@.len() - i,
    {
        r.push(s[i]);
        i = i + 1;
        assert(r@ =~= s@.subrange(start as int, i as int));
    }
    r.push(x);
    assert(r@ =~= window_push(s@, x, size as nat));
    r
}

impl CounterpointState {
    #[verifier::type_invariant]
    spec fn inv(self) -> bool {
        &&& self.interval_history@.len() <= 4
        &&& self.melody_contour@.len() <= 3
        &&& self.last_melody matches Some(m) ==> m <= 127
        &&& self.last_harmony matches Some(h) ==> h <= 127
        &&& self.harmony_range matches Some((lo, hi)) ==> lo <= hi <= 127
    }

    /// Creates a state with no history.
    pub fn new() -> (s: Self)
        ensures
            s@ == counterpoint_initial(),
    {
        let s = CounterpointState {
            last_melody: None,
            last_harmony: None,
            interval_history: Vec::new(),
            melody_contour: Vec::new(),
            harmony_range: None,
        };
        assert(s@.interval_history =~= Seq::empty());
        assert(s@.melody_contour =~= Seq::empty());
        s
    }

    /// Forgets all history.
    pub fn reset(&mut self)
        ensures
            final(self)@ == counterpoint_initial(),
    {
        *self = Self::new();
    }

    /// The last melody note processed.
    pub fn last_melody(&self) -> (r: Option<u8>)
        ensures
            r == self@.last_melody,
    {
        self.last_melody
    }

    /// The last harmony note produced.
    pub fn last_harmony(&self) -> (r: Option<u8>)
        ensures
            r == self@.last_harmony,
    {
        self.last_harmony
    }

    /// Lowest and highest harmony notes produced since the last reset.
    pub fn harmony_range_bounds(&self) -> (r: (Option<u8>, Option<u8>))
        ensures
            r == (self@.harmony_range_low, self@.harmony_range_high),
    {
        match self.harmony_range {
            Some((lo, hi)) => (Some(lo), Some(hi)),
            None => (None, None),
        }
    }

    /// Width of the harmony range seen so far.
    pub fn harmony_range(&self) -> (r: Option<u8>)
        ensures
            match r {
                Some(w) => spec_harmony_range(self@) == Some(w as int),
                None => spec_harmony_range(self@) is None,
            },
    {
        proof {
            use_type_invariant(self);
        }
        match self.harmony_range {
            Some((low, high)) => Some(high - low),
            None => None,
        }
    }

    /// Whether the harmony range is at most a fifth.
    pub fn is_harmony_range_narrow(&self) -> (r: bool)
        ensures
            r == spec_range_narrow(self@),
    {
        match self.harmony_range() {
            Some(w) => w <= NARROW_RANGE_THRESHOLD,
            None => false,
        }
    }

    /// The recent interval classes, oldest first.
    pub fn interval_history(&self) -> (r: &[i8])
        ensures
            r@ == self@.interval_history,
    {
        self.interval_history.as_slice()
    }

    /// The majority melodic direction of the recent contour, if any.
    pub fn dominant_contour(&self) -> (r: Option<MelodicDirection>)
        ensures
            r == spec_dominant_contour(self@.melody_contour),
    {
        proof {
            use_type_invariant(self);
        }
        let n = self.melody_contour.len();
        if n < 2 {
            return None;
        }
        let ascending = count_direction(&self.melody_contour, MelodicDirection::Ascending);
        let descending = count_direction(&self.melody_contour, MelodicDirection::Descending);
        let threshold = (n + 1) / 2;
        if ascending >= threshold {
            Some(MelodicDirection::Ascending)
        } else if descending >= threshold {
            Some(MelodicDirection::Descending)
        } else {
            None
        }
    }

    /// The recent melodic directions, oldest first.
    pub fn melody_contour(&self) -> (r: &[MelodicDirection])
        ensures
            r@ == self@.melody_contour,
    {
        self.melody_contour.as_slice()
    }

    /// Records an interval class in the history window (the oldest entry
    /// leaves when the window is full).
    pub fn push_interval(&mut self, interval_class: i8)
        ensures
            final(self)@ == (CounterpointView {
                interval_history: window_push(old(self)@.interval_history, interval_class, INTERVAL_HISTORY_SIZE as nat),
                ..old(self)@
            }),
    {
        proof {
            use_type_invariant(&*self);
        }
        let w = pushed_window(&self.interval_history, interval_class, INTERVAL_HISTORY_SIZE);
        self.interval_history = w;
    }

    /// How many times an interval class occurs in the recent history.
    pub fn count_recent_interval(&self, interval_class: i8) -> (r: usize)
        ensures
            r == count_of(self@.interval_history, interval_class),
    {
        count_i8(&self.interval_history, interval_class)
    }

    /// Whether an interval class occurs 3 or more times in the recent history.
    pub fn is_interval_overused(&self, interval_class: i8) -> (r: bool)
        ensures
            r == (count_of(self@.interval_history, interval_class) >= 3),
    {
        self.count_recent_interval(interval_class) >= 3
    }

    /// Whether an interval class is absent from the recent history.
    pub fn is_interval_fresh(&self, interval_class: i8) -> (r: bool)
        ensures
            r == !self@.interval_history.contains(interval_class),
    {
        proof {
            lemma_count_contains(self@.interval_history, interval_class);
        }
        self.count_recent_interval(interval_class) == 0
    }

    /// The melodic direction from one note to another.
    pub fn direction_between(from: u8, to: u8) -> (r: MelodicDirection)
        ensures
            r == spec_direction(from, to),
    {
        direction_between(from, to)
    }

    /// Records a melodic direction in the contour window (the oldest entry
    /// leaves when the window is full).
    pub fn push_contour(&mut self, direction: MelodicDirection)
        ensures
            final(self)@ == (CounterpointView {
                melody_contour: window_push(old(self)@.melody_contour, direction, CONTOUR_HISTORY_SIZE as nat),
                ..old(self)@
            }),
    {
        proof {
            use_type_invariant(&*self);
        }
        let w = pushed_window(&self.melody_contour, direction, CONTOUR_HISTORY_SIZE);
        self.melody_contour = w;
    }

    /// Widens the tracked harmony range to include `note`.
    pub fn update_harmony_range(&mut self, note: u8)
        requires
            note <= 127,
        ensures
            final(self)@ == (CounterpointView {
                harmony_range_low: Some(match old(self)@.harmony_range_low {
                    Some(lo) => if note < lo { note } else { lo },
                    None => note,
                }),
                harmony_range_high: Some(match old(self)@.harmony_range_high {
                    Some(hi) => if note > hi { note } else { hi },
                    None => note,
                }),
                ..old(self)@
            }),
    {
        proof {
            use_type_invariant(&*self);
        }
        let r = match self.harmony_range {
            Some((lo, hi)) => (if note < lo { note } else { lo }, if note > hi { note } else { hi }),
            None => (note, note),
        };
        self.harmony_range = Some(r);
    }

    /// Sets the last melody and harmony notes (as if they had just been played).
    pub fn set_last_notes(&mut self, melody: Option<u8>, harmony: Option<u8>)
        requires
            melody matches Some(m) ==> m <= 127,
            harmony matches Some(h) ==> h <= 127,
        ensures
            final(self)@ == (CounterpointView { last_melody: melody, last_harmony: harmony, ..old(self)@ }),
    {
        proof {
            use_type_invariant(&*self);
        }
        self.last_melody = melody;
        self.last_harmony = harmony;
    }

    /// Voice-leading score of a candidate harmony (see `spec_score`).
    fn score_candidate(&self, melody: u8, candidate: u8, interval: i8) -> (r: i32)
        requires
            melody <= 127,
            candidate <= 127,
        ensures
            r == spec_score(self@, melody, candidate, interval as int),
    {
        proof {
            use_type_invariant(self);
        }
        if let (Some(pm), Some(ph)) = (self.last_melody, self.last_harmony) {
            let prev_interval = interval_class(pm, ph);
            let new_interval = interval_class(melody, candidate);
            if (prev_interval == 0 || prev_interval == 7) && prev_interval == new_interval {
                return -100;
            }
            if melody == pm && candidate == ph {
                return -100;
            }
        }
        let mut score: i32 = 0;
        if let Some(ph) = self.last_harmony {
            if candidate != ph {
                score = score + 3;
            }
            let d: u8 = if candidate >= ph {
                candidate - ph
            } else {
                ph - candidate
            };
            if d == 1 || d == 2 {
                score = score + 4;
            } else if d == 3 || d == 4 {
                score = score + 2;
            }
        }
        let cls = semitones_to_interval_class(candidate as i16 - melody as i16);
        let used = count_i8(&self.interval_history, cls);
        if used >= 3 {
            score = score - 3;
        }
        if used == 0 {
            proof {
                if self.interval_history@.contains(cls) {
                    lemma_count_contains(self.interval_history@, cls);
                }
            }
            score = score + 2;
        } else {
            proof {
                lemma_count_contains(self.interval_history@, cls);
            }
        }
        let dom = self.dominant_contour();
        if let (Some(dominant), Some(ph)) = (dom, self.last_harmony) {
            let hd = direction_between(ph, candidate);
            if (dominant == MelodicDirection::Ascending && hd == MelodicDirection::Descending) || (
            dominant == MelodicDirection::Descending && hd == MelodicDirection::Ascending) {
                score = score + 3;
            } else if (dominant == MelodicDirection::Ascending && hd == MelodicDirection::Ascending)
                || (dominant == MelodicDirection::Descending && hd == MelodicDirection::Descending) {
                score = score - 1;
            }
        }
        if let Some(ph) = self.last_harmony {
            if self.is_harmony_range_narrow() {
                let d: u8 = if candidate >= ph {
                    candidate - ph
                } else {
                    ph - candidate
                };
                if d >= 5 {
                    score = score + 2;
                }
            }
        }
        let a: i16 = if interval < 0 {
            -(interval as i16)
        } else {
            interval as i16
        };
        if a == 2 || a == 5 {
            score = score + 1;
        }
        score
    }

    /// Best diatonic harmony for an in-key melody note.
    fn find_diatonic_harmony(&self, scale: &Scale, melody: u8, above: Option<bool>) -> (r: Option<(u8, i32)>)
        requires
            melody <= 127,
        ensures
            match r {
                Some((h, s)) => best_diatonic(self@, scale@, melody, diatonic_candidates(above), 0, None)
                    == Some((h, s as int)) && h <= 127,
                None => best_diatonic(self@, scale@, melody, diatonic_candidates(above), 0, None) is None,
            },
    {
        let cands: Vec<i8> = match above {
            None => vec![-2, -5, 2, 5, -3, -4, 3, 4],
            Some(true) => vec![2, 5, 3, 4],
            Some(false) => vec![-2, -5, -3, -4],
        };
        let ghost ivs = diatonic_candidates(above);
        assert(cands@.len() == ivs.len());
        assert(forall|j: int| 0 <= j < ivs.len() ==> cands@[j] as int == #[trigger] ivs[j]);
        let mut best: Option<(u8, i32)> = None;
        let mut k: usize = 0;
        while k < cands.len()
            invariant
                k <= cands@.len(),
                melody <= 127,
                ivs == diatonic_candidates(above),
                cands@.len() == ivs.len(),
                forall|j: int| 0 <= j < ivs.len() ==> cands@[j] as int == #[trigger] ivs[j],
                best matches Some((h, _)) ==> h <= 127,
                best_diatonic(self@, scale@, melody, ivs, 0, None) == best_diatonic(
                    self@,
                    scale@,
                    melody,
                    ivs,
                    k as int,
                    match best {
                        Some((h, s)) => Some((h, s as int)),
                        None => None,
                    },
                ),
            decreases cands@.len() - k,
        {
            let iv = cands[k];
            if let Some(c) = scale.transpose_diatonic(melody, iv) {
                let s = self.score_candidate(melody, c, iv);
                if s >= 0 {
                    match best {
                        None => {
                            best = Some((c, s));
                        },
                        Some((_, bs)) => {
                            if s > bs {
                                best = Some((c, s));
                            }
                        },
                    }
                }
            }
            k = k + 1;
        }
        best
    }

    /// Best chromatic harmony for an out-of-key melody note.
    fn find_chromatic_harmony(&self, scale: &Scale, melody: u8, above: Option<bool>) -> (r: Option<(u8, i32)>)
        requires
            melody <= 127,
        ensures
            match r {
                Some((h, s)) => best_chromatic(self@, scale@, melody, chromatic_candidates(above), 0, None)
                    == Some((h, s as int)) && h <= 127,
                None => best_chromatic(self@, scale@, melody, chromatic_candidates(above), 0, None) is None,
            },
    {
        let cands: Vec<i8> = match above {
            None => vec![-3, -4, 3, 4, -8, -9, 8, 9],
            Some(true) => vec![3, 4, 8, 9],
            Some(false) => vec![-3, -4, -8, -9],
        };
        let ghost ivs = chromatic_candidates(above);
        assert(cands@.len() == ivs.len());
        assert(forall|j: int| 0 <= j < ivs.len() ==> cands@[j] as int == #[trigger] ivs[j]);
        let mut best: Option<(u8, i32)> = None;
        let mut k: usize = 0;
        while k < cands.len()
            invariant
                k <= cands@.len(),
                melody <= 127,
                ivs == chromatic_candidates(above),
                cands@.len() == ivs.len(),
                forall|j: int| 0 <= j < ivs.len() ==> cands@[j] as int == #[trigger] ivs[j],
                forall|j: int| 0 <= j < ivs.len() ==> -9 <= #[trigger] ivs[j] <= 9,
                best matches Some((h, _)) ==> h <= 127,
                best_chromatic(self@, scale@, melody, ivs, 0, None) == best_chromatic(
                    self@,
                    scale@,
                    melody,
                    ivs,
                    k as int,
                    match best {
                        Some((h, s)) => Some((h, s as int)),
                        None => None,
                    },
                ),
            decreases cands@.len() - k,
        {
            let iv = cands[k];
            if let Some(c) = scale.transpose_chromatic(melody, iv) {
                let approx: i8 = iv / 2;
                assert(approx as int == ivs[k as int] / 2 + if ivs[k as int] < 0 && ivs[k as int] % 2 != 0 {
                    1int
                } else {
                    0int
                });
                let mut s = self.score_candidate(melody, c, approx);
                if scale.is_in_scale(c) {
                    s = s + 3;
                }
                if s >= 0 {
                    match best {
                        None => {
                            best = Some((c, s));
                        },
                        Some((_, bs)) => {
                            if s > bs {
                                best = Some((c, s));
                            }
                        },
                    }
                }
            }
            k = k + 1;
        }
        best
    }

    fn step(&mut self, scale: &Scale, melody: u8, above: Option<bool>) -> (r: Vec<u8>)
        requires
            melody <= MIDI_MAX,
        ensures
            is_voice_pair(r@, melody),
            (r@, final(self)@) == counterpoint_step(old(self)@, scale@, melody, above),
    {
        proof {
            use_type_invariant(&*self);
        }
        if let Some(pm) = self.last_melody {
            let d = direction_between(pm, melody);
            let c = pushed_window(&self.melody_contour, d, CONTOUR_HISTORY_SIZE);
            self.melody_contour = c;
        }
        let best = if scale.is_in_scale(melody) {
            self.find_diatonic_harmony(scale, melody, above)
        } else {
            self.find_chromatic_harmony(scale, melody, above)
        };
        self.last_melody = Some(melody);
        match best {
            Some((h, _)) => {
                let cls = semitones_to_interval_class(h as i16 - melody as i16);
                let hist = pushed_window(&self.interval_history, cls, INTERVAL_HISTORY_SIZE);
                self.interval_history = hist;
                let range = match self.harmony_range {
                    Some((l, x)) => (if h < l {
                        h
                    } else {
                        l
                    }, if h > x {
                        h
                    } else {
                        x
                    }),
                    None => (h, h),
                };
                self.harmony_range = Some(range);
                self.last_harmony = Some(h);
                let v = vec![melody, h];
                assert(v@ =~= seq![melody, h]);
                v
            },
            None => {
                self.last_harmony = None;
                let v = vec![melody];
                assert(v@ =~= seq![melody]);
                v
            },
        }
    }

    /// Processes a melody note with counterpoint rules: the best-scoring
    /// consonant candidate (3rds and 6ths above or below, or chromatic ones
    /// for out-of-key notes) that is not a parallel perfect interval and does
    /// not stand still over a repeated melody note.
    /// Returns [melody, harmony] or [melody] if no candidate is acceptable.
    pub fn process(&mut self, scale: &Scale, melody: u8) -> (r: Vec<u8>)
        requires
            melody <= MIDI_MAX,
        ensures
            is_voice_pair(r@, melody),
            (r@, final(self)@) == counterpoint_step(old(self)@, scale@, melody, None),
    {
        self.step(scale, melody, None)
    }

    /// Like `process`, with candidates only above (`above`) or only below.
    pub fn process_directed(&mut self, scale: &Scale, melody: u8, above: bool) -> (r: Vec<u8>)
        requires
            melody <= MIDI_MAX,
        ensures
            is_voice_pair(r@, melody),
            (r@, final(self)@) == counterpoint_step(old(self)@, scale@, melody, Some(above)),
    {
        self.step(scale, melody, Some(above))
    }
}

/// A positive count means the element occurs.
proof fn lemma_count_contains<A>(s: Seq<A>, x: A)
    ensures
        (count_of(s, x) > 0) == s.contains(x),
    decreases s.len(),
{
    if s.len() > 0 {
        lemma_count_contains(s.drop_last(), x);
        if s.drop_last().contains(x) {
            let i = choose|i: int| 0 <= i < s.drop_last().len() && s.drop_last()[i] == x;
            assert(s[i] == x);
        }
        if s.contains(x) && s.last() != x {
            let i = choose|i: int| 0 <= i < s.len() && s[i] == x;
            assert(s.drop_last()[i] == x);
        }
        if s.last() == x {
            assert(s[s.len() - 1] == x);
        }
    }
}

/// A diatonic step moves a scale note strictly up (step 1) or strictly
/// down (step -1).
proof fn lemma_diatonic_step_direction(sc: ScaleView, last: u8, step: int)
    requires
        step == 1 || step == -1,
        in_scale(sc.tonic, sc.mode, last),
    ensures
        spec_transpose_diatonic(sc.tonic, sc.mode, last, step) matches Some(h) ==> (if step == 1 {
            h > last
        } else {
            h < last
        }),
{
    reveal(in_scale);
    lemma_intervals_well_formed(sc.mode);
    let iv = sc.mode.spec_intervals();
    let len = iv.len() as int;
    let cur = degree_index(sc.tonic, sc.mode, last);
    assert(0 <= cur < len);
    let total = cur + step;
    if step == 1 {
        if cur + 1 < len {
            assert(total / len == 0 && total % len == total) by (nonlinear_arith)
                requires
                    0 <= total < len,
            ;
            assert(iv[cur + 1] > iv[cur]);
        } else {
            assert(total / len == 1 && total % len == 0) by (nonlinear_arith)
                requires
                    total == len,
                    len > 0,
            ;
            assert(iv[cur] < 12);
        }
    } else {
        if cur >= 1 {
            assert(total / len == 0 && total % len == total) by (nonlinear_arith)
                requires
                    0 <= total < len,
            ;
            assert(iv[cur - 1] < iv[cur]);
        } else {
            assert(total / len == -1 && total % len == len - 1) by (nonlinear_arith)
                requires
                    total == -1,
                    len > 0,
            ;
            assert(iv[len - 1] < 12);
        }
    }
}

/// Contrary motion: once a melody note has been heard, a rising melody
/// moves the harmony strictly down from its last note and a falling one
/// strictly up (when a harmony note is produced at all).
pub proof fn lemma_contrary_motion(st: ContraryView, sc: ScaleView, melody: u8, above: Option<bool>)
    requires
        st.last_melody is Some,
        st.last_melody->0 != melody,
    ensures
        ({
            let (r, _, _) = contrary_step(st, sc, melody, above);
            let prev = st.last_melody->0;
            let last = match st.last_harmony {
                Some(h) => h,
                None => melody,
            };
            r.len() == 2 ==> (melody > prev ==> r[1] < last) && (melody < prev ==> r[1] > last)
        }),
{
    let prev = st.last_melody->0;
    let last = match st.last_harmony {
        Some(h) => h,
        None => melody,
    };
    let step: int = if melody > prev { -1 } else { 1 };
    if in_scale(sc.tonic, sc.mode, last) {
        lemma_diatonic_step_direction(sc, last, step);
    }
}

/// Whether a harmony note `cand` under `melody` would repeat the previous
/// perfect interval (unison/octave or fifth) or hold a static voice over a
/// repeated melody note.
pub open spec fn counterpoint_forbidden(st: CounterpointView, melody: u8, cand: u8) -> bool {
    match (st.last_melody, st.last_harmony) {
        (Some(pm), Some(ph)) => {
            let pi = spec_interval_class(pm, ph);
            ((pi == 0 || pi == 7) && pi == spec_interval_class(melody, cand)) || (melody == pm && cand == ph)
        },
        _ => false,
    }
}

/// A chosen candidate, if any, is not forbidden.
pub open spec fn choice_allowed(st: CounterpointView, melody: u8, best: Option<(u8, int)>) -> bool {
    match best {
        Some((c, _)) => !counterpoint_forbidden(st, melody, c),
        None => true,
    }
}

proof fn lemma_best_diatonic_allowed(
    st: CounterpointView,
    sc: ScaleView,
    melody: u8,
    ivs: Seq<int>,
    k: int,
    best: Option<(u8, int)>,
)
    requires
        choice_allowed(st, melody, best),
    ensures
        choice_allowed(st, melody, best_diatonic(st, sc, melody, ivs, k, best)),
    decreases ivs.len() - k,
{
    if 0 <= k < ivs.len() {
        let next = match spec_transpose_diatonic(sc.tonic, sc.mode, melody, ivs[k]) {
            Some(c) => {
                let s = spec_score(st, melody, c, ivs[k]);
                if s < 0 {
                    best
                } else {
                    match best {
                        None => Some((c, s)),
                        Some((_, bs)) => if s > bs { Some((c, s)) } else { best },
                    }
                }
            },
            None => best,
        };
        lemma_best_diatonic_allowed(st, sc, melody, ivs, k + 1, next);
    }
}

proof fn lemma_best_chromatic_allowed(
    st: CounterpointView,
    sc: ScaleView,
    melody: u8,
    ivs: Seq<int>,
    k: int,
    best: Option<(u8, int)>,
)
    requires
        choice_allowed(st, melody, best),
    ensures
        choice_allowed(st, melody, best_chromatic(st, sc, melody, ivs, k, best)),
    decreases ivs.len() - k,
{
    if 0 <= k < ivs.len() {
        let next = match spec_transpose_chromatic(melody, ivs[k]) {
            Some(c) => {
                let approx = ivs[k] / 2 + if ivs[k] < 0 && ivs[k] % 2 != 0 { 1int } else { 0int };
                let s = spec_score(st, melody, c, approx) + if in_scale(sc.tonic, sc.mode, c) {
                    3int
                } else {
                    0int
                };
                if s < 0 {
                    best
                } else {
                    match best {
                        None => Some((c, s)),
                        Some((_, bs)) => if s > bs { Some((c, s)) } else { best },
                    }
                }
            },
            None => best,
        };
        lemma_best_chromatic_allowed(st, sc, melody, ivs, k + 1, next);
    }
}

/// Counterpoint never moves in parallel perfect intervals: the harmony it
/// produces neither repeats the previous unison/octave or fifth with the
/// melody nor stays put while the melody repeats.
pub proof fn lemma_counterpoint_no_parallels(st: CounterpointView, sc: ScaleView, melody: u8, above: Option<bool>)
    ensures
        ({
            let (r, _) = counterpoint_step(st, sc, melody, above);
            r.len() == 2 ==> !counterpoint_forbidden(st, melody, r[1])
        }),
{
    let contour = match st.last_melody {
        Some(pm) => window_push(st.melody_contour, spec_direction(pm, melody), 3),
        None => st.melody_contour,
    };
    let st1 = CounterpointView { melody_contour: contour, ..st };
    if in_scale(sc.tonic, sc.mode, melody) {
        lemma_best_diatonic_allowed(st1, sc, melody, diatonic_candidates(above), 0, None);
    } else {
        lemma_best_chromatic_allowed(st1, sc, melody, chromatic_candidates(above), 0, None);
    }
}

} // verus!
