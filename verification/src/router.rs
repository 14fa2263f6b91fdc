//! Where the router sends the notes of a harmonized chord. Opening ports,
//! the timing of humanized notes and the audio fanout are the
//! application's part.

use vstd::prelude::*;

verus! {

/// One note to send: the voice that sounds it (0 is the melody, which is
/// sent at once; the others are humanized), its output port, and the note.
#[derive(Clone, Copy, Debug, PartialEq, Eq, Structural)]
pub struct Delivery {
    pub voice: usize,
    pub port: usize,
    pub note: u8,
}

/// The output port of voice `i`: its entry in the port map, or its own
/// number past the map's end.
pub open spec fn voice_port(port_map: Seq<usize>, i: int) -> usize {
    if i < port_map.len() {
        port_map[i]
    } else {
        i as usize
    }
}

/// The deliveries of the first `k` voices: each voice whose port exists,
/// in voice order.
pub open spec fn spec_deliveries(notes: Seq<u8>, port_map: Seq<usize>, num_outputs: usize, k: int) -> Seq<Delivery>
    decreases k,
{
    if k <= 0 {
        Seq::empty()
    } else {
        let prev = spec_deliveries(notes, port_map, num_outputs, k - 1);
        let port = voice_port(port_map, k - 1);
        if port < num_outputs {
            prev.push(Delivery { voice: (k - 1) as usize, port, note: notes[k - 1] })
        } else {
            prev
        }
    }
}

/// The deliveries of a chord: every voice is sent to its port, and voices
/// whose port is not open are skipped.
pub fn plan_deliveries(notes: &[u8], port_map: &[usize], num_outputs: usize) -> (r: Vec<Delivery>)
    ensures
        r@ == spec_deliveries(notes@, port_map@, num_outputs, notes@.len() as int),
{
    let mut r: Vec<Delivery> = Vec::new();
    let mut i: usize = 0;
    while i < notes.len()
        invariant
            i <= notes@.len(),
            r@ == spec_deliveries(notes@, port_map@, num_outputs, i as int),
        decreases notes@.len() - i,
    {
        let port = if i < port_map.len() {
            port_map[i]
        } else {
            i
        };
        if port < num_outputs {
            r.push(Delivery { voice: i, port, note: notes[i] });
        }
        i = i + 1;
    }
    r
}

/// Every delivery goes to an open port, names a real voice and carries
/// that voice's note, and voices keep their order.
pub proof fn lemma_deliveries_sound(notes: Seq<u8>, port_map: Seq<usize>, num_outputs: usize, k: int)
    requires
        0 <= k <= notes.len(),
        notes.len() <= usize::MAX,
    ensures
        ({
            let d = spec_deliveries(notes, port_map, num_outputs, k);
            &&& forall|j: int|
                0 <= j < d.len() ==> {
                    &&& (#[trigger] d[j]).port < num_outputs
                    &&& d[j].voice < k
                    &&& d[j].note == notes[d[j].voice as int]
                    &&& d[j].port == voice_port(port_map, d[j].voice as int)
                }
            &&& forall|a: int, b: int| 0 <= a < b < d.len() ==> d[a].voice < d[b].voice
        }),
    decreases k,
{
    if k > 0 {
        lemma_deliveries_sound(notes, port_map, num_outputs, k - 1);
        let prev = spec_deliveries(notes, port_map, num_outputs, k - 1);
        let d = spec_deliveries(notes, port_map, num_outputs, k);
        assert forall|j: int| 0 <= j < d.len() implies {
            &&& (#[trigger] d[j]).port < num_outputs
            &&& d[j].voice < k
            &&& d[j].note == notes[d[j].voice as int]
            &&& d[j].port == voice_port(port_map, d[j].voice as int)
        } by {
            if j < prev.len() {
                assert(d[j] == prev[j]);
            }
        }
        assert forall|a: int, b: int| 0 <= a < b < d.len() implies d[a].voice < d[b].voice by {
            assert(d[a] == prev[a]);
            if b < prev.len() {
                assert(d[b] == prev[b]);
            }
        }
    }
}

} // verus!
