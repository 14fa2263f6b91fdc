use contrapunk::slide::{SlideCurve, SlideRole, SlideSlot, SlideTrigger, MAX_SLIDE_VOICES};

#[test]
fn roles_are_listed_in_index_order() {
    let all = SlideRole::all();
    for (i, r) in all.iter().enumerate() {
        assert_eq!(r.index(), i);
    }
    assert_eq!(all[3], SlideRole::Counterpoint);
}

#[test]
fn slot_index_is_role_major() {
    assert_eq!(SlideSlot::new(SlideRole::Input, 0).index(), Some(0));
    assert_eq!(SlideSlot::new(SlideRole::Harmony, 2).index(), Some(10));
    assert_eq!(SlideSlot::new(SlideRole::Counterpoint, 7).index(), Some(MAX_SLIDE_VOICES - 1));
    assert_eq!(SlideSlot::new(SlideRole::Canon, 8).index(), None);
}

#[test]
fn slide_defaults() {
    assert_eq!(SlideRole::default(), SlideRole::Input);
    assert_eq!(SlideSlot::default(), SlideSlot::new(SlideRole::Input, 0));
    assert_eq!(SlideTrigger::default(), SlideTrigger::Legato);
    assert_eq!(SlideCurve::default(), SlideCurve::Linear);
}
