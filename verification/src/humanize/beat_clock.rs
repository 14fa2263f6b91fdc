//! Positions within a bar, as the beat clock reports them.

use vstd::prelude::*;
use vstd::arithmetic::div_mod::{lemma_fundamental_div_mod, lemma_fundamental_div_mod_converse_mod};

verus! {

/// Which subdivision slot the current beat position falls in.
///
/// For a beat at position 2.75: `beat = 2` (third beat, 0-indexed),
/// `eighth = true` (past the midpoint of the beat), `sixteenth = 3`.
#[derive(Clone, Debug, PartialEq, Eq, Structural)]
pub struct SubdivisionPhase {
    /// Which beat we're on (0-indexed within the bar).
    pub beat: u8,
    /// Whether we're on the 8th-note offbeat (past 0.5 of the beat).
    pub eighth: bool,
    /// Which 16th-note slot within the beat (0-3).
    pub sixteenth: u8,
}

/// A subdivision boundary crossing detected between ticks.
#[derive(Clone, Debug, PartialEq, Eq, Structural)]
pub struct SubdivisionCrossing {
    /// Beat number (0-indexed within bar).
    pub beat: u8,
    /// Which 16th-note slot was entered (0-3): 0 = beat downbeat, 1 = first
    /// 16th, 2 = 8th offbeat, 3 = third 16th.
    pub sixteenth: u8,
}

/// The beat entered when the beat clock's position moved from beat
/// `prev_floor` to beat `curr_floor` (whole beats since the start), as a
/// 0-indexed beat of the bar (a position before the start counts back from
/// the bar's end); none when still within the same beat.
pub fn beat_crossed(prev_floor: i64, curr_floor: i64, beats_per_bar: u8) -> (r: Option<u8>)
    requires
        prev_floor != curr_floor ==> beats_per_bar > 0,
    ensures
        r == if prev_floor != curr_floor {
            Some(((curr_floor as int) % (beats_per_bar as int)) as u8)
        } else {
            None::<u8>
        },
        r matches Some(b) ==> b < beats_per_bar,
{
    if prev_floor == curr_floor {
        return None;
    }
    let n: u64 = beats_per_bar as u64;
    let beat: u64 = if curr_floor >= 0 {
        (curr_floor as u64) % n
    } else {
        let back: u64 = ((-(curr_floor as i128)) as u64) % n;
        if back == 0 {
            0
        } else {
            n - back
        }
    };
    proof {
        euclid_mod(curr_floor as int, n as int);
    }
    Some(beat as u8)
}

/// For negative `x`, `x % n` counts back from `n` by `(-x) % n`.
proof fn euclid_mod(x: int, n: int)
    requires
        n > 0,
    ensures
        x < 0 ==> x % n == (if (-x) % n == 0 { 0 } else { n - (-x) % n }),
        0 <= x % n < n,
{
    lemma_fundamental_div_mod(x, n);
    if x < 0 {
        let b = (-x) % n;
        let q = (-x) / n;
        lemma_fundamental_div_mod(-x, n);
        if b == 0 {
            assert(x == (-q) * n + 0) by (nonlinear_arith)
                requires
                    -x == n * q + b,
                    b == 0,
            ;
            lemma_fundamental_div_mod_converse_mod(x, n, -q, 0);
        } else {
            assert(x == (-q - 1) * n + (n - b)) by (nonlinear_arith)
                requires
                    -x == n * q + b,
            ;
            lemma_fundamental_div_mod_converse_mod(x, n, -q - 1, n - b);
        }
    }
}

/// The subdivision boundary crossed when the clock moved from 16th slot
/// `prev_slot` to `curr_slot` (16ths since the start): the slot within the
/// bar as beat and 16th; none when still within the same slot.
pub fn subdivision_crossed(prev_slot: i64, curr_slot: i64, beats_per_bar: u8) -> (r: Option<SubdivisionCrossing>)
    requires
        prev_slot != curr_slot ==> beats_per_bar > 0,
    ensures
        r == if prev_slot != curr_slot {
            let slot = (curr_slot as int) % (4 * beats_per_bar as int);
            Some(SubdivisionCrossing { beat: (slot / 4) as u8, sixteenth: (slot % 4) as u8 })
        } else {
            None::<SubdivisionCrossing>
        },
{
    if prev_slot == curr_slot {
        return None;
    }
    let n: u64 = beats_per_bar as u64 * 4;
    let slot: u64 = if curr_slot >= 0 {
        (curr_slot as u64) % n
    } else {
        let back: u64 = ((-(curr_slot as i128)) as u64) % n;
        if back == 0 {
            0
        } else {
            n - back
        }
    };
    proof {
        euclid_mod(curr_slot as int, n as int);
    }
    Some(SubdivisionCrossing { beat: (slot / 4) as u8, sixteenth: (slot % 4) as u8 })
}

} // verus!
