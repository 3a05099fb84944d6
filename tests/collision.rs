use battleship::collision::{
    detect_collision, detect_horizontal_collision, ship_contains, BattleshipMovement,
    BulletMovement, HorizontalPosition, Point,
};
use battleship::heading::Heading;

fn heading(degrees: i64) -> Heading {
    Heading::from_degrees(degrees).unwrap()
}

fn track(x: i32, y: i32, degrees: i64) -> HorizontalPosition {
    HorizontalPosition { x, y, direction: heading(degrees) }
}

fn ship(x: i32, y: i32, degrees: i64, length: u32) -> BattleshipMovement {
    BattleshipMovement { x, y, direction: heading(degrees), length, width: 0, height: 0 }
}

fn bullet(x: i32, y: i32, degrees: i64) -> BulletMovement {
    BulletMovement {
        x,
        y,
        z: 0,
        direction: heading(degrees),
        horizontal_velocity: 0,
        vertical_velocity: 0,
    }
}

fn on_line(p: &Point, t: &HorizontalPosition) -> bool {
    let east = t.direction.east as i128;
    let north = t.direction.north as i128;
    (p.x - t.x as i128 * p.den) * north == (p.y - t.y as i128 * p.den) * east
}

#[test]
fn test_detect_collision() {
    let b = bullet(0, 0, 45);
    let s = ship(100, 100, 315, 10);
    assert!(detect_collision(b, s) == true)
}

#[test]
fn test_detect_collision_horizontal() {
    let p1 = track(1, 1, 90);
    let p2 = track(-1, -1, 0);
    let pc = detect_horizontal_collision(p1, p2);
    assert!(pc.unwrap().is_at(-1, 1));
}

#[test]
fn crossing_of_diagonal_tracks_lies_on_both() {
    let a = track(0, 0, 45);
    let b = track(10, 0, 315);
    let p = detect_horizontal_collision(a, b).unwrap();
    assert!(p.den > 0);
    assert!(p.is_at(5, 5));
    assert!(on_line(&p, &a));
    assert!(on_line(&p, &b));
}

#[test]
fn crossing_at_a_fractional_point() {
    let a = HorizontalPosition { x: 0, y: 0, direction: Heading::new(1, 2).unwrap() };
    let b = HorizontalPosition { x: 1, y: 0, direction: Heading::new(-1, 1).unwrap() };
    let p = detect_horizontal_collision(a, b).unwrap();
    // a + s * (1, 2) = b + t * (-1, 1) gives s = 1/3: the point (1/3, 2/3)
    assert_eq!(p.x * 3, p.den);
    assert_eq!(p.y * 3, 2 * p.den);
    assert!(on_line(&p, &a));
    assert!(on_line(&p, &b));
}

#[test]
fn parallel_tracks_never_cross() {
    assert_eq!(detect_horizontal_collision(track(0, 0, 45), track(5, 0, 225)), None);
    assert_eq!(detect_horizontal_collision(track(0, 0, 45), track(5, 0, 45)), None);
    assert_eq!(detect_horizontal_collision(track(0, 0, 0), track(3, 3, 180)), None);
    assert_eq!(detect_horizontal_collision(track(0, 0, 90), track(3, 3, -90)), None);
}

#[test]
fn crossing_is_symmetric_for_axis_aligned_tracks() {
    let a = track(1, 1, 90);
    let b = track(-1, -1, 0);
    let ab = detect_horizontal_collision(a, b).unwrap();
    let ba = detect_horizontal_collision(b, a).unwrap();
    assert_eq!(ab, ba);
    assert!(ba.is_at(-1, 1));
}

#[test]
fn crossing_is_symmetric_for_general_tracks() {
    let a = track(3, -2, 135);
    let b = track(-7, 4, 45);
    assert_eq!(detect_horizontal_collision(a, b), detect_horizontal_collision(b, a));
}

#[test]
fn containment_is_repeatable() {
    let s = ship(0, 0, 0, 10);
    let p = Point { x: 0, y: 3, den: 1 };
    let first = ship_contains(&p, &s);
    let second = ship_contains(&p, &s);
    assert_eq!(first, second);
    assert!(first);
}

#[test]
fn hull_ends_are_contained() {
    let s = ship(0, 0, 0, 10);
    assert!(ship_contains(&Point { x: 0, y: 5, den: 1 }, &s));
    assert!(ship_contains(&Point { x: 0, y: -5, den: 1 }, &s));
    assert!(!ship_contains(&Point { x: 0, y: 6, den: 1 }, &s));
    let east = ship(4, 4, 90, 3);
    assert!(ship_contains(&Point { x: 11, y: 8, den: 2 }, &east));
    assert!(ship_contains(&Point { x: 5, y: 8, den: 2 }, &east));
    assert!(!ship_contains(&Point { x: 12, y: 8, den: 2 }, &east));
}

#[test]
fn hull_width_is_not_tested() {
    let s = ship(0, 0, 0, 10);
    assert!(!ship_contains(&Point { x: 1, y: 0, den: 1 }, &s));
}

#[test]
fn diagonal_hull_box() {
    // a hull of length 10 along 45 degrees reaches 5 / sqrt(2) ~ 3.54 each way
    let s = ship(0, 0, 45, 10);
    assert!(ship_contains(&Point { x: 3, y: 3, den: 1 }, &s));
    assert!(ship_contains(&Point { x: 7, y: -7, den: 2 }, &s));
    assert!(!ship_contains(&Point { x: 4, y: 0, den: 1 }, &s));
}

#[test]
fn track_missing_the_hull() {
    let b = bullet(0, 0, 45);
    let s = ship(100, 0, 315, 10);
    // the tracks cross at (50, 50), far from the hull
    assert!(!detect_collision(b, s));
}

#[test]
fn parallel_track_never_collides() {
    let b = bullet(100, 90, 315);
    let s = ship(100, 100, 135, 1000);
    assert!(!detect_collision(b, s));
}
