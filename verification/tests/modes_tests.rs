use contrapunk::harmony::modes::{diatonic_fourths, diatonic_thirds, pass_through, random_below, random_below_no_seconds};
use contrapunk::harmony::scale::Scale;

const C4: u8 = 60;
const E4: u8 = 64;
const F4: u8 = 65;
const G4: u8 = 67;
const C5: u8 = 72;

#[test]
fn test_pass_through() {
    let scale = Scale::major(0);
    let result = pass_through(C4, &scale);
    assert_eq!(result, vec![C4]);
}

#[test]
fn test_diatonic_thirds() {
    let mut scale = Scale::major(0);
    assert_eq!(diatonic_thirds(C4, &mut scale), vec![C4, E4]);
    assert_eq!(diatonic_thirds(E4, &mut scale), vec![E4, G4]);
}

#[test]
fn test_diatonic_fourths() {
    let mut scale = Scale::major(0);
    assert_eq!(diatonic_fourths(C4, &mut scale), vec![C4, F4]);
}

#[test]
fn test_random_below_produces_harmony() {
    let mut scale = Scale::major(0);
    let result = random_below(C5, &mut scale);
    assert_eq!(result.len(), 2);
    assert_eq!(result[0], C5);
    assert!(result[1] < C5);
}

#[test]
fn random_below_no_seconds_stays_a_third_or_more_below() {
    let mut scale = Scale::major(0);
    for _ in 0..50 {
        let result = random_below_no_seconds(C5, &mut scale);
        assert_eq!(result.len(), 2);
        assert!(C5 - result[1] >= 3, "got {:?}", result);
        assert!(scale.is_in_scale(result[1]));
    }
}

#[test]
fn thirds_at_the_top_of_the_range_give_the_melody_alone() {
    let mut scale = Scale::major(0);
    assert_eq!(diatonic_thirds(127, &mut scale).len(), 1);
}
