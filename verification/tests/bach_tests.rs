use contrapunk::harmony::config::ScaleMode;
use contrapunk::harmony::functional::chord_table::ChordTable;
use contrapunk::harmony::functional::markov::{lookup_index, markov_index, uses_minor_table, STATE_COUNT};
use contrapunk::harmony::functional::voicer_bach::{voice_bach_satb, voice_bach_satb_has_parallel_fifths_or_octaves};

fn c_major_table() -> ChordTable {
    ChordTable::build(0, ScaleMode::Ionian)
}

#[test]
fn test_voice_c_major_triad() {
    let table = c_major_table();
    let chord_pcs = table.chord_pcs[0];
    let melody = 72;
    let voicing = voice_bach_satb(&chord_pcs, melody, None, &table, 0);
    assert_eq!(voicing[0], melody);
    for &n in &voicing {
        assert!(n <= 127, "MIDI note out of range: {}", n);
    }
    assert!(voicing[0] >= voicing[1], "Voice crossing: S({}) < A({})", voicing[0], voicing[1]);
}

#[test]
fn test_no_parallel_fifths() {
    let prev = [72u8, 67, 64, 48];
    let curr = [74u8, 69, 66, 50];
    assert!(voice_bach_satb_has_parallel_fifths_or_octaves(&prev, &curr));
}

#[test]
fn test_no_doubled_leading_tone() {
    let table = c_major_table();
    let chord_pcs = table.chord_pcs[4];
    let melody = 83;
    let voicing = voice_bach_satb(&chord_pcs, melody, None, &table, 4);
    let b_count = voicing.iter().filter(|&&n| n % 12 == 11).count();
    assert!(b_count <= 1, "Leading tone doubled: {} occurrences of B", b_count);
}

#[test]
fn test_consecutive_voicings_no_parallels() {
    let table = c_major_table();
    let i_pcs = table.chord_pcs[0];
    let v1 = voice_bach_satb(&i_pcs, 72, None, &table, 0);
    let v_pcs = table.chord_pcs[4];
    let v2 = voice_bach_satb(&v_pcs, 67, Some(&v1), &table, 4);
    assert!(
        !voice_bach_satb_has_parallel_fifths_or_octaves(&v1, &v2),
        "Parallel fifths/octaves between I and V: {:?} -> {:?}",
        v1,
        v2
    );
}

#[test]
fn test_bass_is_chord_tone() {
    let table = c_major_table();
    let chord_pcs = table.chord_pcs[0];
    let voicing = voice_bach_satb(&chord_pcs, 76, None, &table, 0);
    let bass_pc = voicing[3] % 12;
    let valid_pcs = [0u8, 4, 7, 11];
    assert!(valid_pcs.contains(&bass_pc), "Bass pc={} should be a chord tone", bass_pc);
}

#[test]
fn chord_table_stacks_thirds() {
    let table = c_major_table();
    assert_eq!(table.chord_pcs[0], [0, 4, 7, 11]);
    assert_eq!(table.chord_pcs[1], [2, 5, 9, 0]);
    assert_eq!(table.chord_pcs[4], [7, 11, 2, 5]);
    assert_eq!(table.leading_tone_pc, 11);
    let g = ChordTable::build(7, ScaleMode::Ionian);
    assert_eq!(g.chord_pcs[0], [7, 11, 2, 6]);
    assert_eq!(g.leading_tone_pc, 6);
}

#[test]
fn c_major_triad_voicing_exact() {
    let table = c_major_table();
    assert_eq!(voice_bach_satb(&table.chord_pcs[0], 72, None, &table, 0), [72, 64, 55, 47]);
}

#[test]
fn melody_below_every_bass_placement_falls_back() {
    // A soprano below every bass placement satisfies no constraint set: each
    // remaining pitch class goes nearest its range's center.
    let table = c_major_table();
    let v = voice_bach_satb(&table.chord_pcs[0], 30, None, &table, 0);
    assert_eq!(v, [30, 60, 52, 43]);
}

#[test]
fn markov_indexing() {
    assert_eq!(markov_index(0, 0, 0, false), 0);
    assert_eq!(markov_index(4, 0, 2, true), 4 * 56 + 2 * 2 + 1);
    assert_eq!(markov_index(1, 2, 5, false), 56 + 16 + 2);
    assert_eq!(lookup_index(9, 9, 9, true), STATE_COUNT - 1);
}

#[test]
fn minor_modes_use_the_minor_table() {
    assert!(!uses_minor_table(ScaleMode::Ionian));
    assert!(uses_minor_table(ScaleMode::Aeolian));
    assert!(uses_minor_table(ScaleMode::HarmonicMinor));
    assert!(!uses_minor_table(ScaleMode::Lydian));
}

#[test]
fn test_table_for_scale_major() {
    assert!(!uses_minor_table(ScaleMode::Ionian));
}

#[test]
fn test_table_for_scale_minor() {
    assert!(uses_minor_table(ScaleMode::Aeolian));
}
