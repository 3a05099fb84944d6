use battleship::heading::{is_parallel, mod_direction, Heading};

#[test]
fn directions_normalize_into_one_turn() {
    assert_eq!(mod_direction(0), 0);
    assert_eq!(mod_direction(359), 359);
    assert_eq!(mod_direction(360), 0);
    assert_eq!(mod_direction(725), 5);
    assert_eq!(mod_direction(-90), 270);
    assert_eq!(mod_direction(-360), 0);
    assert_eq!(mod_direction(-361), 359);
}

#[test]
fn compass_headings() {
    assert_eq!(Heading::from_degrees(0), Some(Heading { east: 0, north: 1 }));
    assert_eq!(Heading::from_degrees(90), Some(Heading { east: 1, north: 0 }));
    assert_eq!(Heading::from_degrees(-45), Some(Heading { east: -1, north: 1 }));
    assert_eq!(Heading::from_degrees(540), Some(Heading { east: 0, north: -1 }));
    assert_eq!(Heading::from_degrees(30), None);
}

#[test]
fn zero_vector_is_no_heading() {
    assert_eq!(Heading::new(0, 0), None);
    assert_eq!(Heading::new(3, -4), Some(Heading { east: 3, north: -4 }));
}

#[test]
fn axis_alignment() {
    assert!(Heading::from_degrees(180).unwrap().is_axis_aligned());
    assert!(Heading::from_degrees(270).unwrap().is_axis_aligned());
    assert!(!Heading::from_degrees(135).unwrap().is_axis_aligned());
}

#[test]
fn half_turns_are_parallel() {
    for a in [0i64, 45, 90, 135, 180, 225, 270, 315] {
        for b in [0i64, 45, 90, 135, 180, 225, 270, 315, -45, 720] {
            let ha = Heading::from_degrees(a).unwrap();
            let hb = Heading::from_degrees(b).unwrap();
            assert_eq!(is_parallel(ha, hb), (a - b) % 180 == 0, "{} {}", a, b);
        }
    }
}
