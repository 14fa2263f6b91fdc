//! Voice-leading rule checks over chord voicings (MIDI notes, index 0 = the
//! top/melody voice in arrangement order).

use vstd::prelude::*;

use super::voicer::VoiceRegister;

verus! {

/// All pairs `(i, j)` with `i < j < n`, enumerated from `(i, j)` onwards in
/// row order, that satisfy `pred`.
pub open spec fn pair_list(pred: spec_fn(int, int) -> bool, n: int, i: int, j: int) -> Seq<(int, int)>
    decreases n - i, n - j,
{
    if i < 0 || i >= n {
        Seq::empty()
    } else if j >= n || j <= i {
        if j <= i && j < n {
            pair_list(pred, n, i, i + 1)
        } else {
            pair_list(pred, n, i + 1, i + 2)
        }
    } else {
        (if pred(i, j) { seq![(i, j)] } else { Seq::empty() }) + pair_list(pred, n, i, j + 1)
    }
}

/// Interval class (0-11) of two notes.
pub open spec fn ic(a: u8, b: u8) -> int {
    if a >= b {
        (a - b) % 12
    } else {
        (b - a) % 12
    }
}

/// Voices `i` and `j` form interval class `class` in both chords and both moved.
pub open spec fn parallel_at(prev: Seq<u8>, curr: Seq<u8>, class: int, i: int, j: int) -> bool {
    &&& ic(prev[i], prev[j]) == class
    &&& ic(curr[i], curr[j]) == class
    &&& prev[i] != curr[i]
    &&& prev[j] != curr[j]
}

/// Pairs of voices moving in parallel perfect fifths.
pub open spec fn parallel_fifth_pairs(prev: Seq<u8>, curr: Seq<u8>) -> Seq<(int, int)> {
    let n = if prev.len() < curr.len() { prev.len() as int } else { curr.len() as int };
    pair_list(|i: int, j: int| parallel_at(prev, curr, 7, i, j), n, 0, 1)
}

/// Pairs of voices moving in parallel octaves or unisons.
pub open spec fn parallel_octave_pairs(prev: Seq<u8>, curr: Seq<u8>) -> Seq<(int, int)> {
    let n = if prev.len() < curr.len() { prev.len() as int } else { curr.len() as int };
    pair_list(|i: int, j: int| parallel_at(prev, curr, 0, i, j), n, 0, 1)
}

/// Pairs of voices whose registers are ordered one way and whose notes the other.
pub open spec fn crossing_pairs(v: Seq<u8>, regs: Seq<VoiceRegister>) -> Seq<(int, int)> {
    let n = if v.len() < regs.len() { v.len() as int } else { regs.len() as int };
    pair_list(
        |i: int, j: int| regs[i].spec_order() < regs[j].spec_order() && v[i] < v[j],
        n,
        0,
        1,
    )
}

/// Indices `i >= k` of adjacent upper voices (the lowest pair excluded) more
/// than an octave apart.
pub open spec fn spacing_list(v: Seq<u8>, k: int) -> Seq<int>
    decreases v.len() - k,
{
    if k < 0 || k + 2 >= v.len() {
        Seq::empty()
    } else {
        (if ic_dist(v[k], v[k + 1]) > 12 { seq![k] } else { Seq::empty() }) + spacing_list(v, k + 1)
    }
}

/// Distance between two notes.
pub open spec fn ic_dist(a: u8, b: u8) -> int {
    if a >= b {
        a - b
    } else {
        b - a
    }
}

/// Whether every harmony voice (index >= 1, at least two of them) moved in
/// the same direction.
pub open spec fn spec_all_parallel(prev: Seq<u8>, curr: Seq<u8>) -> bool {
    let n = if prev.len() < curr.len() { prev.len() as int } else { curr.len() as int };
    n >= 3 && ((forall|i: int| 1 <= i < n ==> curr[i] > prev[i]) || (forall|i: int|
        1 <= i < n ==> curr[i] < prev[i]))
}

/// Enumerates pairs of voices satisfying a per-pair parallel check.
fn parallel_pairs(prev: &[u8], curr: &[u8], class: u8) -> (r: Vec<(usize, usize)>)
    requires
        class < 12,
    ensures
        r@.len() == ({
            let n = if prev@.len() < curr@.len() { prev@.len() as int } else { curr@.len() as int };
            pair_list(|i: int, j: int| parallel_at(prev@, curr@, class as int, i, j), n, 0, 1).len()
        }),
{
    let n: usize = if prev.len() < curr.len() {
        prev.len()
    } else {
        curr.len()
    };
    let ghost pred = |i: int, j: int| parallel_at(prev@, curr@, class as int, i, j);
    let mut r: Vec<(usize, usize)> = Vec::new();
    let mut i: usize = 0;
    while i < n
        invariant
            i <= n,
            n <= prev@.len(),
            n <= curr@.len(),
            pred == (|i: int, j: int| parallel_at(prev@, curr@, class as int, i, j)),
            r@.len() + pair_list(pred, n as int, i as int, i + 1).len() == pair_list(pred, n as int, 0, 1).len(),
        decreases n - i,
    {
        let mut j: usize = i + 1;
        while j < n
            invariant
                i < n,
                i + 1 <= j <= n,
                n <= prev@.len(),
                n <= curr@.len(),
                pred == (|i: int, j: int| parallel_at(prev@, curr@, class as int, i, j)),
                r@.len() + pair_list(pred, n as int, i as int, j as int).len() == pair_list(
                    pred,
                    n as int,
                    0,
                    1,
                ).len(),
            decreases n - j,
        {
            let pi: u8 = if prev[i] >= prev[j] {
                (prev[i] - prev[j]) % 12
            } else {
                (prev[j] - prev[i]) % 12
            };
            let ci: u8 = if curr[i] >= curr[j] {
                (curr[i] - curr[j]) % 12
            } else {
                (curr[j] - curr[i]) % 12
            };
            if pi == class && ci == class && prev[i] != curr[i] && prev[j] != curr[j] {
                r.push((i, j));
            }
            j = j + 1;
        }
        i = i + 1;
    }
    r
}

/// Number of voice pairs moving in parallel perfect fifths.
pub fn check_parallel_fifths(prev: &[u8], curr: &[u8]) -> (r: usize)
    ensures
        r == parallel_fifth_pairs(prev@, curr@).len(),
{
    parallel_pairs(prev, curr, 7).len()
}

/// Number of voice pairs moving in parallel octaves (or unisons).
pub fn check_parallel_octaves(prev: &[u8], curr: &[u8]) -> (r: usize)
    ensures
        r == parallel_octave_pairs(prev@, curr@).len(),
{
    parallel_pairs(prev, curr, 0).len()
}

/// Number of voice pairs crossing their register order.
pub fn check_voice_crossing(voicing: &[u8], registers: &[VoiceRegister]) -> (r: usize)
    ensures
        r == crossing_pairs(voicing@, registers@).len(),
{
    let n: usize = if voicing.len() < registers.len() {
        voicing.len()
    } else {
        registers.len()
    };
    let ghost pred = |i: int, j: int|
        registers@[i].spec_order() < registers@[j].spec_order() && voicing@[i] < voicing@[j];
    let mut found: Vec<(usize, usize)> = Vec::new();
    let mut i: usize = 0;
    while i < n
        invariant
            i <= n,
            n <= voicing@.len(),
            n <= registers@.len(),
            pred == (|i: int, j: int|
                registers@[i].spec_order() < registers@[j].spec_order() && voicing@[i] < voicing@[j]),
            found@.len() + pair_list(pred, n as int, i as int, i + 1).len() == pair_list(pred, n as int, 0, 1).len(),
        decreases n - i,
    {
        let mut j: usize = i + 1;
        while j < n
            invariant
                i < n,
                i + 1 <= j <= n,
                n <= voicing@.len(),
                n <= registers@.len(),
                pred == (|i: int, j: int|
                    registers@[i].spec_order() < registers@[j].spec_order() && voicing@[i] < voicing@[j]),
                found@.len() + pair_list(pred, n as int, i as int, j as int).len() == pair_list(
                    pred,
                    n as int,
                    0,
                    1,
                ).len(),
            decreases n - j,
        {
            if registers[i].order() < registers[j].order() && voicing[i] < voicing[j] {
                found.push((i, j));
            }
            j = j + 1;
        }
        i = i + 1;
    }
    found.len()
}

/// Number of adjacent upper-voice pairs more than an octave apart.
pub fn check_spacing(voicing: &[u8]) -> (r: usize)
    ensures
        r == spacing_list(voicing@, 0).len(),
{
    let mut count: usize = 0;
    let mut k: usize = 0;
    while k < voicing.len() && voicing.len() - k > 2
        invariant
            k <= voicing@.len(),
            count + spacing_list(voicing@, k as int).len() == spacing_list(voicing@, 0).len(),
            count <= k,
        decreases voicing@.len() - k,
    {
        let d: u8 = if voicing[k] >= voicing[k + 1] {
            voicing[k] - voicing[k + 1]
        } else {
            voicing[k + 1] - voicing[k]
        };
        if d > 12 {
            count = count + 1;
        }
        k = k + 1;
    }
    count
}

/// Whether all harmony voices moved in the same direction.
pub fn check_motion_independence(prev: &[u8], curr: &[u8]) -> (r: bool)
    ensures
        r == spec_all_parallel(prev@, curr@),
{
    let n: usize = if prev.len() < curr.len() {
        prev.len()
    } else {
        curr.len()
    };
    if n < 3 {
        return false;
    }
    let mut all_up = true;
    let mut all_down = true;
    let mut i: usize = 1;
    while i < n
        invariant
            1 <= i <= n,
            n <= prev@.len(),
            n <= curr@.len(),
            all_up == (forall|k: int| 1 <= k < i ==> curr@[k] > prev@[k]),
            all_down == (forall|k: int| 1 <= k < i ==> curr@[k] < prev@[k]),
        decreases n - i,
    {
        if !(curr[i] > prev[i]) {
            all_up = false;
        }
        if !(curr[i] < prev[i]) {
            all_down = false;
        }
        i = i + 1;
    }
    all_up || all_down
}

} // verus!
