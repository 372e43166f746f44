use trace::reflection::next_reflection;

#[test]
fn reflection_below_limit() {
    assert_eq!(next_reflection(0, 6, true), Some(1));
    assert_eq!(next_reflection(5, 6, true), Some(6));
}

#[test]
fn reflection_stops_at_limit() {
    assert_eq!(next_reflection(6, 6, true), None);
    assert_eq!(next_reflection(0, 0, true), None);
    assert_eq!(next_reflection(u32::MAX, u32::MAX, true), None);
}

#[test]
fn reflection_needs_reflective_surface() {
    assert_eq!(next_reflection(0, 6, false), None);
}

#[test]
fn mirror_hall_terminates_at_limit() {
    let mut depth: u32 = 0;
    let mut bounces: u32 = 0;
    while let Some(d) = next_reflection(depth, 6, true) {
        depth = d;
        bounces += 1;
        assert!(bounces <= 6);
    }
    assert_eq!(bounces, 6);
    assert_eq!(depth, 6);
}
