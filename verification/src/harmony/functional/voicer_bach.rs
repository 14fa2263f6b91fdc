//! SATB voice allocation with the hard constraints of Bach chorale style: no
//! parallel perfect fifths or octaves, no doubled leading tone, outer voices
//! outside the inner ones, and at most an octave between adjacent upper voices.

use vstd::prelude::*;

use super::chord_table::ChordTable;
use crate::harmony::voice_leading::voicer::{lemma_notes_in_range_facts, notes_in_range, spec_notes_in_range};

verus! {

/// Lowest alto note (G3).
pub const ALTO_LO: u8 = 55;

/// Highest alto note (C5).
pub const ALTO_HI: u8 = 72;

/// Lowest tenor note (C3).
pub const TENOR_LO: u8 = 48;

/// Highest tenor note (G4).
pub const TENOR_HI: u8 = 67;

/// Lowest bass note (C2).
pub const BASS_LO: u8 = 36;

/// Highest bass note (C4).
pub const BASS_HI: u8 = 60;

/// The pitch classes left for alto, tenor and bass once the soprano takes
/// the melody: the chord without the first tone equal to the melody's pitch
/// class, or root, third and fifth when the melody is the seventh or is not
/// a chord tone.
pub open spec fn bach_remaining(chord: Seq<u8>, m: u8) -> Seq<u8> {
    if chord[0] == m {
        seq![chord[1], chord[2], chord[3]]
    } else if chord[1] == m {
        seq![chord[0], chord[2], chord[3]]
    } else if chord[2] == m {
        seq![chord[0], chord[1], chord[3]]
    } else {
        seq![chord[0], chord[1], chord[2]]
    }
}

/// Distance between two notes.
pub open spec fn absd(a: u8, b: u8) -> int {
    if a >= b {
        a - b
    } else {
        b - a
    }
}

/// Voices `i` and `j` both move and form a perfect fifth, or an octave or
/// unison, in both chords.
pub open spec fn moves_parallel(prev: Seq<u8>, curr: Seq<u8>, i: int, j: int) -> bool {
    let pi = absd(prev[i], prev[j]) % 12;
    let ci = absd(curr[i], curr[j]) % 12;
    &&& 0 <= i < j < 4
    &&& prev[i] != curr[i]
    &&& prev[j] != curr[j]
    &&& ((pi == 7 && ci == 7) || (pi == 0 && ci == 0))
}

/// Two four-voice chords move in parallel fifths or octaves.
pub open spec fn spec_parallel_58(prev: Seq<u8>, curr: Seq<u8>) -> bool {
    exists|i: int, j: int| #[trigger] moves_parallel(prev, curr, i, j)
}

/// Number of voices holding the leading tone.
pub open spec fn lt_count(c: Seq<u8>, lt: u8) -> int {
    (if c[0] % 12 == lt { 1int } else { 0 }) + (if c[1] % 12 == lt { 1int } else { 0 }) + (if c[2] % 12
        == lt { 1int } else { 0 }) + (if c[3] % 12 == lt { 1int } else { 0 })
}

/// The hard constraints on a voicing `[S, A, T, B]`.
pub open spec fn spec_hard_ok(c: Seq<u8>, prev: Option<Seq<u8>>, lt: u8) -> bool {
    &&& c[0] >= c[1] && c[0] >= c[2] && c[3] <= c[1] && c[3] <= c[2]
    &&& !(c[0] > c[1] && c[0] - c[1] > 12)
    &&& !(c[1] > c[2] && c[1] - c[2] > 12)
    &&& lt_count(c, lt) <= 1
    &&& match prev {
        Some(p) => !spec_parallel_58(p, c),
        None => true,
    }
}

/// The relaxed constraints: no parallel fifths or octaves, and the soprano
/// not below the bass.
pub open spec fn spec_relaxed_ok(c: Seq<u8>, prev: Option<Seq<u8>>) -> bool {
    &&& match prev {
        Some(p) => !spec_parallel_58(p, c),
        None => true,
    }
    &&& c[0] >= c[3]
}

/// The constraints in force in a search.
pub open spec fn bach_ok(relaxed: bool, c: Seq<u8>, prev: Option<Seq<u8>>, lt: u8) -> bool {
    if relaxed {
        spec_relaxed_ok(c, prev)
    } else {
        spec_hard_ok(c, prev, lt)
    }
}

/// Score of one voice's motion: minus its distance, 10 for a common tone,
/// 5 for a step of one or two semitones.
pub open spec fn voice_motion(a: u8, b: u8) -> int {
    let d = absd(a, b);
    -d + (if d == 0 { 10int } else { 0 }) + (if d == 1 || d == 2 { 5int } else { 0 })
}

/// Soft score of a voicing (higher is better).
pub open spec fn spec_bach_score(c: Seq<u8>, prev: Option<Seq<u8>>, root: u8) -> int {
    (match prev {
        Some(p) => {
            let s_dir = c[0] - p[0];
            let b_dir = c[3] - p[3];
            voice_motion(c[0], p[0]) + voice_motion(c[1], p[1]) + voice_motion(c[2], p[2])
                + voice_motion(c[3], p[3]) + (if (s_dir > 0 && b_dir < 0) || (s_dir < 0 && b_dir > 0) {
                8int
            } else {
                0
            }) - (if c[1] < c[2] { 5int } else { 0 })
        },
        None => -(absd(c[0], 69) + absd(c[1], 63) + absd(c[2], 57) + absd(c[3], 48)),
    }) + (if c[3] % 12 == root { 15int } else { 0 })
}

/// The candidate with alto `a[ia]`, tenor `t[it]` and bass `b[ib]`.
pub open spec fn cand(m: u8, a: Seq<u8>, t: Seq<u8>, b: Seq<u8>, ia: int, it: int, ib: int) -> Seq<u8> {
    seq![m, a[ia], t[it], b[ib]]
}

/// An index triple within the placement lists.
pub open spec fn in_range(a: Seq<u8>, t: Seq<u8>, b: Seq<u8>, ia: int, it: int, ib: int) -> bool {
    0 <= ia < a.len() && 0 <= it < t.len() && 0 <= ib < b.len()
}

/// Lexicographic order on index triples (the order of the search).
pub open spec fn tri_lt(ia: int, it: int, ib: int, ja: int, jt: int, jb: int) -> bool {
    ia < ja || (ia == ja && (it < jt || (it == jt && ib < jb)))
}

/// Some candidate satisfies the constraints.
pub open spec fn exists_ok(
    m: u8,
    a: Seq<u8>,
    t: Seq<u8>,
    b: Seq<u8>,
    prev: Option<Seq<u8>>,
    lt: u8,
    relaxed: bool,
) -> bool {
    exists|ia: int, it: int, ib: int|
        in_range(a, t, b, ia, it, ib) && bach_ok(relaxed, #[trigger] cand(m, a, t, b, ia, it, ib), prev, lt)
}

/// Candidate `(ia, it, ib)` satisfies the constraints, has the highest score
/// of all that do, and every earlier one that does scores lower.
pub open spec fn is_first_best(
    m: u8,
    a: Seq<u8>,
    t: Seq<u8>,
    b: Seq<u8>,
    prev: Option<Seq<u8>>,
    lt: u8,
    root: u8,
    relaxed: bool,
    ia: int,
    it: int,
    ib: int,
) -> bool {
    let c = cand(m, a, t, b, ia, it, ib);
    &&& in_range(a, t, b, ia, it, ib)
    &&& bach_ok(relaxed, c, prev, lt)
    &&& forall|ja: int, jt: int, jb: int|
        in_range(a, t, b, ja, jt, jb) && bach_ok(relaxed, #[trigger] cand(m, a, t, b, ja, jt, jb), prev, lt)
            ==> spec_bach_score(cand(m, a, t, b, ja, jt, jb), prev, root) <= spec_bach_score(c, prev, root) && (
        tri_lt(ja, jt, jb, ia, it, ib) ==> spec_bach_score(cand(m, a, t, b, ja, jt, jb), prev, root)
            < spec_bach_score(c, prev, root))
}

/// What the search has found among the candidates before `(ba, bt, bb)`:
/// nothing satisfying the constraints, or the first best one so far.
pub open spec fn search_summary(
    m: u8,
    a: Seq<u8>,
    t: Seq<u8>,
    b: Seq<u8>,
    prev: Option<Seq<u8>>,
    lt: u8,
    root: u8,
    relaxed: bool,
    found: Option<(int, int, int)>,
    ba: int,
    bt: int,
    bb: int,
) -> bool {
    match found {
        None => forall|ja: int, jt: int, jb: int|
            in_range(a, t, b, ja, jt, jb) && tri_lt(ja, jt, jb, ba, bt, bb) ==> !bach_ok(
                relaxed,
                #[trigger] cand(m, a, t, b, ja, jt, jb),
                prev,
                lt,
            ),
        Some((ia, it, ib)) => {
            let c = cand(m, a, t, b, ia, it, ib);
            &&& in_range(a, t, b, ia, it, ib)
            &&& tri_lt(ia, it, ib, ba, bt, bb)
            &&& bach_ok(relaxed, c, prev, lt)
            &&& forall|ja: int, jt: int, jb: int|
                in_range(a, t, b, ja, jt, jb) && tri_lt(ja, jt, jb, ba, bt, bb) && bach_ok(
                    relaxed,
                    #[trigger] cand(m, a, t, b, ja, jt, jb),
                    prev,
                    lt,
                ) ==> spec_bach_score(cand(m, a, t, b, ja, jt, jb), prev, root) <= spec_bach_score(c, prev, root)
                    && (tri_lt(ja, jt, jb, ia, it, ib) ==> spec_bach_score(cand(m, a, t, b, ja, jt, jb), prev, root)
                    < spec_bach_score(c, prev, root))
        },
    }
}

/// The note of pitch class `pc` (within MIDI 0-127) nearest to `center`,
/// the lower one on a tie.
pub open spec fn is_nearest(pc: u8, center: u8, r: u8) -> bool {
    &&& r <= 127
    &&& r % 12 == pc % 12
    &&& forall|n: u8|
        n <= 127 && #[trigger] (n % 12) == pc % 12 ==> absd(r, center) <= absd(n, center) && (absd(n, center)
            == absd(r, center) ==> r <= n)
}

/// Views an optional four-voice chord.
pub open spec fn opt_view4(p: Option<&[u8; 4]>) -> Option<Seq<u8>> {
    match p {
        Some(v) => Some(v@),
        None => None,
    }
}

/// The voicing when no candidate satisfies even the relaxed constraints.
pub open spec fn is_bach_fallback(m: u8, rem: Seq<u8>, r: Seq<u8>) -> bool {
    &&& r.len() == 4
    &&& r[0] == m
    &&& is_nearest(rem[0], ((ALTO_LO + ALTO_HI) / 2) as u8, r[1])
    &&& is_nearest(rem[1], ((TENOR_LO + TENOR_HI) / 2) as u8, r[2])
    &&& is_nearest(rem[2], ((BASS_LO + BASS_HI) / 2) as u8, r[3])
}

/// Exec form of `bach_remaining`.
fn remaining_chord_pcs(chord: &[u8; 4], m: u8) -> (r: [u8; 3])
    ensures
        r@ == bach_remaining(chord@, m),
{
    let r = if chord[0] == m {
        [chord[1], chord[2], chord[3]]
    } else if chord[1] == m {
        [chord[0], chord[2], chord[3]]
    } else if chord[2] == m {
        [chord[0], chord[1], chord[3]]
    } else {
        [chord[0], chord[1], chord[2]]
    };
    assert(r@ =~= bach_remaining(chord@, m));
    r
}

/// The note of pitch class `pc` nearest to `center`.
fn nearest_in_range(pc: u8, center: u8) -> (r: u8)
    requires
        center <= 127,
    ensures
        is_nearest(pc, center, r),
{
    let pcm = pc % 12;
    let mut best: u8 = pcm;
    let mut best_dist: u8 = 128;
    let mut note: u8 = pcm;
    while note <= 127
        invariant
            note % 12 == pcm,
            pcm == pc % 12,
            note <= 139,
            center <= 127,
            note == pcm ==> best_dist == 128,
            note > pcm ==> best <= 127 && best % 12 == pcm && best_dist == absd(best, center) && best < note,
            forall|n: u8|
                n < note && #[trigger] (n % 12) == pcm ==> absd(best, center) <= absd(n, center) && (absd(
                    n,
                    center,
                ) == absd(best, center) ==> best <= n),
        decreases 140 - note,
    {
        let dist: u8 = if note > center {
            note - center
        } else {
            center - note
        };
        if dist < best_dist {
            best = note;
            best_dist = dist;
        }
        note = note + 12;
    }
    best
}

/// Exec form of `spec_parallel_58`.
fn parallel_58(prev: &[u8; 4], curr: &[u8; 4]) -> (r: bool)
    ensures
        r == spec_parallel_58(prev@, curr@),
{
    let mut i: usize = 0;
    while i < 4
        invariant
            i <= 4,
            forall|k: int, l: int| k < i ==> !#[trigger] moves_parallel(prev@, curr@, k, l),
        decreases 4 - i,
    {
        let mut j: usize = i + 1;
        while j < 4
            invariant
                i < 4,
                i + 1 <= j <= 4,
                forall|k: int, l: int| k < i ==> !#[trigger] moves_parallel(prev@, curr@, k, l),
                forall|l: int| l < j ==> !#[trigger] moves_parallel(prev@, curr@, i as int, l),
            decreases 4 - j,
        {
            let pd: u8 = if prev[i] >= prev[j] {
                prev[i] - prev[j]
            } else {
                prev[j] - prev[i]
            };
            let cd: u8 = if curr[i] >= curr[j] {
                curr[i] - curr[j]
            } else {
                curr[j] - curr[i]
            };
            let pi = pd % 12;
            let ci = cd % 12;
            if prev[i] != curr[i] && prev[j] != curr[j] && ((pi == 7 && ci == 7) || (pi == 0 && ci == 0)) {
                assert(moves_parallel(prev@, curr@, i as int, j as int));
                return true;
            }
            j = j + 1;
        }
        assert forall|k: int, l: int| k < i + 1 implies !#[trigger] moves_parallel(prev@, curr@, k, l) by {
            if k == i && i < l < 4 {
            }
        }
        i = i + 1;
    }
    false
}

/// Checks for parallel perfect fifths or octaves (both voices moving)
/// between two four-voice chords.
pub fn voice_bach_satb_has_parallel_fifths_or_octaves(prev: &[u8; 4], curr: &[u8; 4]) -> (r: bool)
    ensures
        r == spec_parallel_58(prev@, curr@),
{
    parallel_58(prev, curr)
}

/// Exec form of `bach_ok`.
fn candidate_ok(relaxed: bool, c: &[u8; 4], prev: Option<&[u8; 4]>, lt: u8) -> (r: bool)
    ensures
        r == bach_ok(relaxed, c@, opt_view4(prev), lt),
{
    let no_parallel = match prev {
        Some(p) => !parallel_58(p, c),
        None => true,
    };
    if relaxed {
        no_parallel && c[0] >= c[3]
    } else {
        if c[0] < c[1] || c[0] < c[2] || c[3] > c[1] || c[3] > c[2] {
            return false;
        }
        if c[0] > c[1] && c[0] - c[1] > 12 {
            return false;
        }
        if c[1] > c[2] && c[1] - c[2] > 12 {
            return false;
        }
        let mut count: u8 = 0;
        if c[0] % 12 == lt {
            count = count + 1;
        }
        if c[1] % 12 == lt {
            count = count + 1;
        }
        if c[2] % 12 == lt {
            count = count + 1;
        }
        if c[3] % 12 == lt {
            count = count + 1;
        }
        count <= 1 && no_parallel
    }
}

/// Exec form of `voice_motion`.
fn motion(a: u8, b: u8) -> (r: i32)
    ensures
        r == voice_motion(a, b),
        -255 <= r <= 10,
{
    let d: i32 = if a >= b {
        (a - b) as i32
    } else {
        (b - a) as i32
    };
    let mut r: i32 = -d;
    if d == 0 {
        r = r + 10;
    }
    if d == 1 || d == 2 {
        r = r + 5;
    }
    r
}

/// Distance as an `i32`.
fn dist_i32(a: u8, b: u8) -> (r: i32)
    ensures
        r == absd(a, b),
        0 <= r <= 255,
{
    if a >= b {
        (a - b) as i32
    } else {
        (b - a) as i32
    }
}

/// Exec form of `spec_bach_score`.
fn bach_score(c: &[u8; 4], prev: Option<&[u8; 4]>, root: u8) -> (r: i32)
    ensures
        r == spec_bach_score(c@, opt_view4(prev), root),
{
    let base: i32 = match prev {
        Some(p) => {
            let s_dir: i32 = c[0] as i32 - p[0] as i32;
            let b_dir: i32 = c[3] as i32 - p[3] as i32;
            let mut s = motion(c[0], p[0]) + motion(c[1], p[1]) + motion(c[2], p[2]) + motion(c[3], p[3]);
            if (s_dir > 0 && b_dir < 0) || (s_dir < 0 && b_dir > 0) {
                s = s + 8;
            }
            if c[1] < c[2] {
                s = s - 5;
            }
            s
        },
        None => -(dist_i32(c[0], 69) + dist_i32(c[1], 63) + dist_i32(c[2], 57) + dist_i32(c[3], 48)),
    };
    if c[3] % 12 == root {
        base + 15
    } else {
        base
    }
}

/// Moving the search bound between equivalent positions keeps the summary.
proof fn lemma_summary_shift(
    m: u8,
    a: Seq<u8>,
    t: Seq<u8>,
    b: Seq<u8>,
    prev: Option<Seq<u8>>,
    lt: u8,
    root: u8,
    relaxed: bool,
    found: Option<(int, int, int)>,
    ba: int,
    bt: int,
    bb: int,
    ca: int,
    ct: int,
    cb: int,
)
    requires
        search_summary(m, a, t, b, prev, lt, root, relaxed, found, ba, bt, bb),
        forall|ja: int, jt: int, jb: int|
            in_range(a, t, b, ja, jt, jb) ==> (tri_lt(ja, jt, jb, ba, bt, bb) <==> tri_lt(
                ja,
                jt,
                jb,
                ca,
                ct,
                cb,
            )),
    ensures
        search_summary(m, a, t, b, prev, lt, root, relaxed, found, ca, ct, cb),
{
}

/// Searches alto x tenor x bass placements (in that nesting order) for the
/// first highest-scoring candidate satisfying the constraints.
fn bach_search(
    m: u8,
    a: &Vec<u8>,
    t: &Vec<u8>,
    b: &Vec<u8>,
    prev: Option<&[u8; 4]>,
    lt: u8,
    root: u8,
    relaxed: bool,
) -> (r: Option<[u8; 4]>)
    ensures
        match r {
            None => !exists_ok(m, a@, t@, b@, opt_view4(prev), lt, relaxed),
            Some(c) => exists|ia: int, it: int, ib: int|
                is_first_best(m, a@, t@, b@, opt_view4(prev), lt, root, relaxed, ia, it, ib) && c@ == cand(
                    m,
                    a@,
                    t@,
                    b@,
                    ia,
                    it,
                    ib,
                ),
        },
{
    let ghost pv = opt_view4(prev);
    let mut best: Option<([u8; 4], i32)> = None;
    let ghost mut found: Option<(int, int, int)> = None;
    let mut ia: usize = 0;
    while ia < a.len()
        invariant
            ia <= a@.len(),
            pv == opt_view4(prev),
            best.is_some() == found.is_some(),
            found matches Some(g) ==> best.unwrap().0@ == cand(m, a@, t@, b@, g.0, g.1, g.2) && best.unwrap().1
                == spec_bach_score(cand(m, a@, t@, b@, g.0, g.1, g.2), pv, root),
            search_summary(m, a@, t@, b@, pv, lt, root, relaxed, found, ia as int, 0, 0),
        decreases a@.len() - ia,
    {
        let mut it: usize = 0;
        while it < t.len()
            invariant
                ia < a@.len(),
                it <= t@.len(),
                pv == opt_view4(prev),
                best.is_some() == found.is_some(),
                found matches Some(g) ==> best.unwrap().0@ == cand(m, a@, t@, b@, g.0, g.1, g.2)
                    && best.unwrap().1 == spec_bach_score(cand(m, a@, t@, b@, g.0, g.1, g.2), pv, root),
                search_summary(m, a@, t@, b@, pv, lt, root, relaxed, found, ia as int, it as int, 0),
            decreases t@.len() - it,
        {
            let mut ib: usize = 0;
            while ib < b.len()
                invariant
                    ia < a@.len(),
                    it < t@.len(),
                    ib <= b@.len(),
                    pv == opt_view4(prev),
                    best.is_some() == found.is_some(),
                    found matches Some(g) ==> best.unwrap().0@ == cand(m, a@, t@, b@, g.0, g.1, g.2)
                        && best.unwrap().1 == spec_bach_score(cand(m, a@, t@, b@, g.0, g.1, g.2), pv, root),
                    search_summary(m, a@, t@, b@, pv, lt, root, relaxed, found, ia as int, it as int, ib as int),
                decreases b@.len() - ib,
            {
                let c: [u8; 4] = [m, a[ia], t[it], b[ib]];
                assert(c@ =~= cand(m, a@, t@, b@, ia as int, it as int, ib as int));
                if candidate_ok(relaxed, &c, prev, lt) {
                    let score = bach_score(&c, prev, root);
                    let replace = match best {
                        None => true,
                        Some((_, s)) => score > s,
                    };
                    if replace {
                        best = Some((c, score));
                        proof {
                            found = Some((ia as int, it as int, ib as int));
                        }
                    }
                }
                ib = ib + 1;
            }
            proof {
                lemma_summary_shift(
                    m,
                    a@,
                    t@,
                    b@,
                    pv,
                    lt,
                    root,
                    relaxed,
                    found,
                    ia as int,
                    it as int,
                    ib as int,
                    ia as int,
                    it + 1,
                    0,
                );
            }
            it = it + 1;
        }
        proof {
            lemma_summary_shift(m, a@, t@, b@, pv, lt, root, relaxed, found, ia as int, it as int, 0, ia + 1, 0, 0);
        }
        ia = ia + 1;
    }
    match best {
        None => None,
        Some((c, _)) => {
            proof {
                let g = found->0;
                assert(is_first_best(m, a@, t@, b@, pv, lt, root, relaxed, g.0, g.1, g.2));
            }
            Some(c)
        },
    }
}

/// What `voice_bach_satb` returns for these inputs (see its description).
pub open spec fn bach_voicing(
    chord_pcs: Seq<u8>,
    melody_midi: u8,
    prev_voicing: Option<Seq<u8>>,
    leading_tone: u8,
    root: u8,
    r: Seq<u8>,
) -> bool {
    let rem = bach_remaining(chord_pcs, melody_midi % 12);
    let a = spec_notes_in_range(rem[0] % 12, ALTO_LO, ALTO_HI);
    let t = spec_notes_in_range(rem[1] % 12, TENOR_LO, TENOR_HI);
    let b = spec_notes_in_range(rem[2] % 12, BASS_LO, BASS_HI);
    if exists_ok(melody_midi, a, t, b, prev_voicing, leading_tone, false) {
        exists|ia: int, it: int, ib: int|
            is_first_best(melody_midi, a, t, b, prev_voicing, leading_tone, root, false, ia, it, ib) && r == cand(
                melody_midi,
                a,
                t,
                b,
                ia,
                it,
                ib,
            )
    } else if exists_ok(melody_midi, a, t, b, prev_voicing, leading_tone, true) {
        exists|ia: int, it: int, ib: int|
            is_first_best(melody_midi, a, t, b, prev_voicing, leading_tone, root, true, ia, it, ib) && r == cand(
                melody_midi,
                a,
                t,
                b,
                ia,
                it,
                ib,
            )
    } else {
        is_bach_fallback(melody_midi, rem, r)
    }
}

/// A Bach voicing avoids parallel fifths and octaves with the previous
/// chord, and keeps the soprano on top of the bass, whenever any placement
/// of the lower voices allows it.
pub proof fn lemma_bach_avoids_parallels(
    chord_pcs: Seq<u8>,
    melody_midi: u8,
    prev: Seq<u8>,
    leading_tone: u8,
    root: u8,
    r: Seq<u8>,
)
    requires
        bach_voicing(chord_pcs, melody_midi, Some(prev), leading_tone, root, r),
        ({
            let rem = bach_remaining(chord_pcs, melody_midi % 12);
            exists_ok(
                melody_midi,
                spec_notes_in_range(rem[0] % 12, ALTO_LO, ALTO_HI),
                spec_notes_in_range(rem[1] % 12, TENOR_LO, TENOR_HI),
                spec_notes_in_range(rem[2] % 12, BASS_LO, BASS_HI),
                Some(prev),
                leading_tone,
                true,
            )
        }),
    ensures
        !spec_parallel_58(prev, r),
        r[0] >= r[3],
{
}

/// Whenever some placement of alto, tenor and bass satisfies the hard
/// constraints, the Bach voicing keeps the melody in the soprano, satisfies
/// them, and no placement satisfying them scores higher.
pub proof fn lemma_bach_hard_when_possible(
    chord_pcs: Seq<u8>,
    melody_midi: u8,
    prev: Option<Seq<u8>>,
    leading_tone: u8,
    root: u8,
    r: Seq<u8>,
)
    requires
        bach_voicing(chord_pcs, melody_midi, prev, leading_tone, root, r),
        ({
            let rem = bach_remaining(chord_pcs, melody_midi % 12);
            exists_ok(
                melody_midi,
                spec_notes_in_range(rem[0] % 12, ALTO_LO, ALTO_HI),
                spec_notes_in_range(rem[1] % 12, TENOR_LO, TENOR_HI),
                spec_notes_in_range(rem[2] % 12, BASS_LO, BASS_HI),
                prev,
                leading_tone,
                false,
            )
        }),
    ensures
        r.len() == 4,
        r[0] == melody_midi,
        spec_hard_ok(r, prev, leading_tone),
        ({
            let rem = bach_remaining(chord_pcs, melody_midi % 12);
            let a = spec_notes_in_range(rem[0] % 12, ALTO_LO, ALTO_HI);
            let t = spec_notes_in_range(rem[1] % 12, TENOR_LO, TENOR_HI);
            let b = spec_notes_in_range(rem[2] % 12, BASS_LO, BASS_HI);
            forall|ia: int, it: int, ib: int|
                in_range(a, t, b, ia, it, ib) && spec_hard_ok(#[trigger] cand(melody_midi, a, t, b, ia, it, ib), prev, leading_tone)
                    ==> spec_bach_score(cand(melody_midi, a, t, b, ia, it, ib), prev, root) <= spec_bach_score(
                    r,
                    prev,
                    root,
                )
        }),
{
    let rem = bach_remaining(chord_pcs, melody_midi % 12);
    let a = spec_notes_in_range(rem[0] % 12, ALTO_LO, ALTO_HI);
    let t = spec_notes_in_range(rem[1] % 12, TENOR_LO, TENOR_HI);
    let b = spec_notes_in_range(rem[2] % 12, BASS_LO, BASS_HI);
    let (ia, it, ib) = choose|ia: int, it: int, ib: int|
        is_first_best(melody_midi, a, t, b, prev, leading_tone, root, false, ia, it, ib) && r == cand(
            melody_midi,
            a,
            t,
            b,
            ia,
            it,
            ib,
        );
    assert forall|ja: int, jt: int, jb: int|
        in_range(a, t, b, ja, jt, jb) && spec_hard_ok(#[trigger] cand(melody_midi, a, t, b, ja, jt, jb), prev, leading_tone)
            implies spec_bach_score(cand(melody_midi, a, t, b, ja, jt, jb), prev, root) <= spec_bach_score(r, prev, root) by {
        assert(bach_ok(false, cand(melody_midi, a, t, b, ja, jt, jb), prev, leading_tone));
    }
}

/// When the melody's pitch class is a chord tone, the pitch classes left for
/// alto, tenor and bass are the chord's tones with one occurrence of the
/// melody's pitch class taken out (as a multiset).
pub proof fn lemma_remaining_is_chord_minus_melody(chord: Seq<u8>, m: u8)
    requires
        chord.len() == 4,
        chord.contains(m),
    ensures
        bach_remaining(chord, m).to_multiset().insert(m) == chord.to_multiset(),
{
    broadcast use vstd::seq_lib::group_to_multiset_ensures;
    assert(chord =~= seq![chord[0], chord[1], chord[2], chord[3]]);
    let a = chord[0];
    let b = chord[1];
    let c = chord[2];
    let d = chord[3];
    assert(seq![a, b, c, d] =~= seq![a, b, c].push(d));
    assert(seq![a, b, c] =~= seq![a, b].push(c));
    assert(seq![a, b] =~= seq![a].push(b));
    assert(seq![a] =~= Seq::<u8>::empty().push(a));
    let r = bach_remaining(chord, m);
    let x = r[0];
    let y = r[1];
    let z = r[2];
    assert(r =~= Seq::<u8>::empty().push(x).push(y).push(z));
    let full = Seq::<u8>::empty().push(a).push(b).push(c).push(d).to_multiset();
    assert(chord.to_multiset() == full);
    assert(r.to_multiset().insert(m) =~= full);
}

/// Each lower voice of a Bach voicing has the pitch class left for it.
#[verifier::spinoff_prover]
#[verifier::rlimit(60)]
proof fn lemma_bach_voice_pcs(
    chord_pcs: Seq<u8>,
    melody_midi: u8,
    prev: Option<Seq<u8>>,
    leading_tone: u8,
    root: u8,
    r: Seq<u8>,
)
    requires
        bach_voicing(chord_pcs, melody_midi, prev, leading_tone, root, r),
    ensures
        r.len() == 4,
        r[0] == melody_midi,
        ({
            let rem = bach_remaining(chord_pcs, melody_midi % 12);
            r[1] % 12 == rem[0] % 12 && r[2] % 12 == rem[1] % 12 && r[3] % 12 == rem[2] % 12
        }),
{
    let rem = bach_remaining(chord_pcs, melody_midi % 12);
    let a = spec_notes_in_range(rem[0] % 12, ALTO_LO, ALTO_HI);
    let t = spec_notes_in_range(rem[1] % 12, TENOR_LO, TENOR_HI);
    let b = spec_notes_in_range(rem[2] % 12, BASS_LO, BASS_HI);
    lemma_notes_in_range_facts(rem[0] % 12, ALTO_LO, ALTO_HI);
    lemma_notes_in_range_facts(rem[1] % 12, TENOR_LO, TENOR_HI);
    lemma_notes_in_range_facts(rem[2] % 12, BASS_LO, BASS_HI);
    if exists_ok(melody_midi, a, t, b, prev, leading_tone, false) {
        let (ia, it, ib) = choose|ia: int, it: int, ib: int|
            is_first_best(melody_midi, a, t, b, prev, leading_tone, root, false, ia, it, ib) && r == cand(
                melody_midi,
                a,
                t,
                b,
                ia,
                it,
                ib,
            );
        assert(in_range(a, t, b, ia, it, ib));
        assert(r[1] == a[ia] && r[2] == t[it] && r[3] == b[ib]);
    } else if exists_ok(melody_midi, a, t, b, prev, leading_tone, true) {
        let (ia, it, ib) = choose|ia: int, it: int, ib: int|
            is_first_best(melody_midi, a, t, b, prev, leading_tone, root, true, ia, it, ib) && r == cand(
                melody_midi,
                a,
                t,
                b,
                ia,
                it,
                ib,
            );
        assert(in_range(a, t, b, ia, it, ib));
        assert(r[1] == a[ia] && r[2] == t[it] && r[3] == b[ib]);
    }
}

/// When the melody's pitch class is a chord tone (pitch classes 0-11), the
/// Bach voicing puts the melody in the soprano and gives alto, tenor and
/// bass the chord's other tones: their pitch classes with the melody's are
/// exactly the chord's (as a multiset), on every path of the search.
#[verifier::spinoff_prover]
#[verifier::rlimit(60)]
pub proof fn lemma_bach_voices_complete_chord(
    chord_pcs: Seq<u8>,
    melody_midi: u8,
    prev: Option<Seq<u8>>,
    leading_tone: u8,
    root: u8,
    r: Seq<u8>,
)
    requires
        bach_voicing(chord_pcs, melody_midi, prev, leading_tone, root, r),
        chord_pcs.len() == 4,
        forall|i: int| 0 <= i < 4 ==> #[trigger] chord_pcs[i] < 12,
        chord_pcs.contains(melody_midi % 12),
    ensures
        r.len() == 4,
        r[0] == melody_midi,
        seq![r[1] % 12, r[2] % 12, r[3] % 12].to_multiset().insert(melody_midi % 12) == chord_pcs.to_multiset(),
{
    let m = melody_midi % 12;
    let rem = bach_remaining(chord_pcs, m);
    lemma_bach_voice_pcs(chord_pcs, melody_midi, prev, leading_tone, root, r);
    assert(rem[0] < 12 && rem[1] < 12 && rem[2] < 12);
    assert(seq![r[1] % 12, r[2] % 12, r[3] % 12] =~= rem);
    lemma_remaining_is_chord_minus_melody(chord_pcs, m);
}

/// Allocates four SATB voices for a chord, the soprano taking the melody.
///
/// `chord_pcs` are the chord's `[root, third, fifth, seventh]`, `degree`
/// its scale degree (0-6). Alto, tenor and bass take the remaining pitch
/// classes (see `bach_remaining`), each placed within its range. The result
/// is the first best-scoring candidate (alto, then tenor, then bass placements
/// ascending) satisfying the hard constraints; if none does, the first best
/// satisfying the relaxed ones; if none does, each remaining pitch class
/// placed nearest its range's center.
pub fn voice_bach_satb(
    chord_pcs: &[u8; 4],
    melody_midi: u8,
    prev_voicing: Option<&[u8; 4]>,
    chord_table: &ChordTable,
    degree: u8,
) -> (r: [u8; 4])
    requires
        degree < 7,
    ensures
        bach_voicing(
            chord_pcs@,
            melody_midi,
            opt_view4(prev_voicing),
            chord_table.leading_tone_pc,
            chord_table.chord_pcs@[degree as int]@[0],
            r@,
        ),
{
    let rem = remaining_chord_pcs(chord_pcs, melody_midi % 12);
    let a = notes_in_range(rem[0] % 12, ALTO_LO, ALTO_HI);
    let t = notes_in_range(rem[1] % 12, TENOR_LO, TENOR_HI);
    let b = notes_in_range(rem[2] % 12, BASS_LO, BASS_HI);
    let lt = chord_table.leading_tone_pc;
    let root = chord_table.chord_pcs[degree as usize][0];
    match bach_search(melody_midi, &a, &t, &b, prev_voicing, lt, root, false) {
        Some(c) => c,
        None => match bach_search(melody_midi, &a, &t, &b, prev_voicing, lt, root, true) {
            Some(c) => c,
            None => {
                let r = [
                    melody_midi,
                    nearest_in_range(rem[0], (ALTO_LO + ALTO_HI) / 2),
                    nearest_in_range(rem[1], (TENOR_LO + TENOR_HI) / 2),
                    nearest_in_range(rem[2], (BASS_LO + BASS_HI) / 2),
                ];
                r
            },
        },
    }
}

} // verus!
