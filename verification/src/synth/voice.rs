//! Voice allocation of the built-in synth: which voice of the pool a new
//! note takes. The voices' envelopes and oscillators are floating point
//! and run in the application, which describes each voice to this module
//! as a `VoiceSlot`.

use vstd::prelude::*;

verus! {

/// What the allocator sees of a voice: whether it sounds, its note,
/// whether it is in its release stage, and when it was last triggered.
#[derive(Clone, Copy, Debug, PartialEq, Eq, Structural)]
pub struct VoiceSlot {
    pub active: bool,
    pub note: u8,
    pub releasing: bool,
    pub age: u64,
}

/// The voice sounds `note` and has not been released.
pub open spec fn spec_holds(v: VoiceSlot, note: u8) -> bool {
    v.active && v.note == note && !v.releasing
}

/// The voice a Note On for `note` takes: the first voice holding that note
/// (retriggered), else the first idle voice, else the first of the oldest
/// voices (stolen).
pub open spec fn is_chosen_voice(vs: Seq<VoiceSlot>, note: u8, r: int) -> bool {
    &&& 0 <= r < vs.len()
    &&& if exists|i: int| 0 <= i < vs.len() && spec_holds(#[trigger] vs[i], note) {
        spec_holds(vs[r], note) && forall|j: int| 0 <= j < r ==> !spec_holds(#[trigger] vs[j], note)
    } else if exists|i: int| 0 <= i < vs.len() && !(#[trigger] vs[i]).active {
        !vs[r].active && forall|j: int| 0 <= j < r ==> (#[trigger] vs[j]).active
    } else {
        &&& forall|j: int| 0 <= j < vs.len() ==> vs[r].age <= (#[trigger] vs[j]).age
        &&& forall|j: int| 0 <= j < r ==> vs[r].age < (#[trigger] vs[j]).age
    }
}

impl VoiceSlot {
    /// Whether the voice sounds `note` and has not been released (a Note
    /// Off for the note releases exactly these voices).
    pub fn holds(&self, note: u8) -> (r: bool)
        ensures
            r == spec_holds(*self, note),
    {
        self.active && self.note == note && !self.releasing
    }
}

/// The voice of the pool that a Note On for `note` takes.
pub fn choose_voice(voices: &[VoiceSlot], note: u8) -> (r: usize)
    requires
        voices@.len() > 0,
    ensures
        is_chosen_voice(voices@, note, r as int),
{
    let n = voices.len();
    let mut i: usize = 0;
    while i < n
        invariant
            n == voices@.len(),
            i <= n,
            forall|j: int| 0 <= j < i ==> !spec_holds(#[trigger] voices@[j], note),
        decreases n - i,
    {
        if voices[i].holds(note) {
            return i;
        }
        i = i + 1;
    }
    let mut k: usize = 0;
    while k < n
        invariant
            n == voices@.len(),
            k <= n,
            forall|j: int| 0 <= j < n ==> !spec_holds(#[trigger] voices@[j], note),
            forall|j: int| 0 <= j < k ==> (#[trigger] voices@[j]).active,
        decreases n - k,
    {
        if !voices[k].active {
            return k;
        }
        k = k + 1;
    }
    let mut best: usize = 0;
    let mut m: usize = 1;
    while m < n
        invariant
            n == voices@.len(),
            n > 0,
            1 <= m <= n,
            best < m,
            forall|j: int| 0 <= j < n ==> !spec_holds(#[trigger] voices@[j], note),
            forall|j: int| 0 <= j < n ==> (#[trigger] voices@[j]).active,
            forall|j: int| 0 <= j < m ==> voices@[best as int].age <= (#[trigger] voices@[j]).age,
            forall|j: int| 0 <= j < best ==> voices@[best as int].age < (#[trigger] voices@[j]).age,
        decreases n - m,
    {
        if voices[m].age < voices[best].age {
            best = m;
        }
        m = m + 1;
    }
    best
}

} // verus!
