use vstd::prelude::*;

use crate::heading::{cross, lemma_i8_product, parallel, Heading};

verus! {

/// Bound on the magnitude of a point's numerators.
pub const POINT_COORD_MAX: i128 = 0x1_0000_0000_0000;

/// Bound on a point's denominator.
pub const POINT_DEN_MAX: i128 = 0x8000;

/// A track on the ground plane: the line through `(x, y)` along `direction`.
#[derive(Clone, Copy, Debug, PartialEq, Eq, Structural)]
pub struct HorizontalPosition {
    pub x: i32,
    pub y: i32,
    pub direction: Heading,
}

/// A point with rational coordinates `(x / den, y / den)`.
#[derive(Clone, Copy, Debug, PartialEq, Eq, Structural)]
pub struct Point {
    pub x: i128,
    pub y: i128,
    pub den: i128,
}

/// A projectile as seen from above: its ground position, heading and speeds.
/// Only the ground track enters the collision test.
#[derive(Clone, Copy, Debug, PartialEq, Eq, Structural)]
pub struct BulletMovement {
    pub x: i32,
    pub y: i32,
    pub z: i32,
    pub direction: Heading,
    pub horizontal_velocity: i32,
    pub vertical_velocity: i32,
}

/// A ship's pose: its centre, heading and hull length. The hull is tested
/// along its length axis only; `width` and `height` are carried but take no
/// part in the containment test.
#[derive(Clone, Copy, Debug, PartialEq, Eq, Structural)]
pub struct BattleshipMovement {
    pub x: i32,
    pub y: i32,
    pub direction: Heading,
    pub length: u32,
    pub width: u32,
    pub height: u32,
}

impl Point {
    pub open spec fn wf(self) -> bool {
        &&& 0 < self.den <= POINT_DEN_MAX
        &&& -POINT_COORD_MAX <= self.x <= POINT_COORD_MAX
        &&& -POINT_COORD_MAX <= self.y <= POINT_COORD_MAX
    }

    /// Whether the point is the integer point `(x, y)`.
    pub fn is_at(&self, x: i32, y: i32) -> (r: bool)
        requires
            self.wf(),
        ensures
            r == (self.x == x * self.den && self.y == y * self.den),
    {
        proof {
            lemma_mul_bound(x as int, self.den as int, 0x8000_0000, 0x8000);
            lemma_mul_bound(y as int, self.den as int, 0x8000_0000, 0x8000);
        }
        self.x == (x as i128) * self.den && self.y == (y as i128) * self.den
    }
}

/// Whether the rational point `(px / den, py / den)` lies on the track `t`:
/// its offset from the track's origin is parallel to the track's heading.
pub open spec fn on_track(px: int, py: int, den: int, t: HorizontalPosition) -> bool {
    (px - t.x * den) * t.direction.north == (py - t.y * den) * t.direction.east
}

/// The cross product of the offset from `a` to `b` with the heading of `b`.
pub open spec fn offset_cross(a: HorizontalPosition, b: HorizontalPosition) -> int {
    (b.x - a.x) * b.direction.north - (b.y - a.y) * b.direction.east
}

/// `1` or `-1`, so that the intersection's denominator comes out positive.
pub open spec fn orient(a: HorizontalPosition, b: HorizontalPosition) -> int {
    if cross(a.direction, b.direction) < 0 {
        -1
    } else {
        1
    }
}

/// Where the track of `a` meets the track of `b`: the point `a + s * da` with
/// `s = offset_cross(a, b) / cross(da, db)`, written over the common
/// denominator `|cross(da, db)|`.
pub open spec fn meet_x(a: HorizontalPosition, b: HorizontalPosition) -> int {
    orient(a, b) * (a.x * cross(a.direction, b.direction) + offset_cross(a, b) * a.direction.east)
}

pub open spec fn meet_y(a: HorizontalPosition, b: HorizontalPosition) -> int {
    orient(a, b) * (a.y * cross(a.direction, b.direction) + offset_cross(a, b)
        * a.direction.north)
}

pub open spec fn meet_den(a: HorizontalPosition, b: HorizontalPosition) -> int {
    orient(a, b) * cross(a.direction, b.direction)
}

/// `|offset| <= |component| * length / (2 * sqrt(norm2))` for a rational offset
/// `offset / den`, squared so that it stays in integers: the offset lies within
/// the hull's extent along one axis, bounds included.
pub open spec fn within_extent(offset: int, component: int, norm2: int, length: int, den: int) -> bool {
    4 * offset * offset * norm2 <= component * component * length * length * den * den
}

/// Whether the rational point `(px / den, py / den)` lies in the box spanned by
/// the two ends of the ship's hull, `centre -+ (sin, cos) * length / 2`.
pub open spec fn hull_contains(px: int, py: int, den: int, ship: BattleshipMovement) -> bool {
    let e = ship.direction.east as int;
    let n = ship.direction.north as int;
    let norm2 = e * e + n * n;
    &&& within_extent(px - ship.x * den, e, norm2, ship.length as int, den)
    &&& within_extent(py - ship.y * den, n, norm2, ship.length as int, den)
}

/// The projectile's ground track.
pub open spec fn bullet_track(bullet: BulletMovement) -> HorizontalPosition {
    HorizontalPosition { x: bullet.x, y: bullet.y, direction: bullet.direction }
}

/// The line along the ship's hull.
pub open spec fn ship_track(ship: BattleshipMovement) -> HorizontalPosition {
    HorizontalPosition { x: ship.x, y: ship.y, direction: ship.direction }
}

/// The projectile's ground track crosses the ship's hull line in a single
/// point, and that point lies within the hull's box.
pub open spec fn collides(bullet: BulletMovement, ship: BattleshipMovement) -> bool {
    let a = bullet_track(bullet);
    let b = ship_track(ship);
    &&& !parallel(a.direction, b.direction)
    &&& hull_contains(meet_x(a, b), meet_y(a, b), meet_den(a, b), ship)
}

/// `|x * y| <= bx * by` when `|x| <= bx` and `|y| <= by`.
pub proof fn lemma_mul_bound(x: int, y: int, bx: int, by: int)
    requires
        -bx <= x <= bx,
        -by <= y <= by,
    ensures
        -(bx * by) <= x * y <= bx * by,
{
    assert(-(bx * by) <= x * y <= bx * by) by (nonlinear_arith)
        requires
            -bx <= x <= bx,
            -by <= y <= by,
    ;
}

/// The point where two tracks cross, or none when they are parallel (their
/// headings differ by a multiple of 180 degrees) and so have no single
/// crossing. Axis-aligned headings take no special path: the lattice
/// headings leave no slope undefined.
pub fn detect_horizontal_collision(a: HorizontalPosition, b: HorizontalPosition) -> (r: Option<Point>)
    ensures
        parallel(a.direction, b.direction) ==> r is None,
        !parallel(a.direction, b.direction) ==> (r matches Some(p) && p.wf() && p.x == meet_x(a, b)
            && p.y == meet_y(a, b) && p.den == meet_den(a, b) && on_track(p.x as int, p.y as int,
            p.den as int, a) && on_track(p.x as int, p.y as int, p.den as int, b)),
{
    let ae = a.direction.east as i128;
    let an = a.direction.north as i128;
    let be = b.direction.east as i128;
    let bn = b.direction.north as i128;
    proof {
        lemma_i8_product(ae as int, bn as int);
        lemma_i8_product(an as int, be as int);
    }
    let d: i128 = ae * bn - an * be;
    if d == 0 {
        return None;
    }
    let dx: i128 = (b.x as i128) - (a.x as i128);
    let dy: i128 = (b.y as i128) - (a.y as i128);
    proof {
        lemma_mul_bound(dx as int, bn as int, 0x1_0000_0000, 128);
        lemma_mul_bound(dy as int, be as int, 0x1_0000_0000, 128);
    }
    let c: i128 = dx * bn - dy * be;
    proof {
        lemma_mul_bound(a.x as int, d as int, 0x8000_0000, 0x8000);
        lemma_mul_bound(a.y as int, d as int, 0x8000_0000, 0x8000);
        lemma_mul_bound(c as int, ae as int, 0x100_0000_0000, 128);
        lemma_mul_bound(c as int, an as int, 0x100_0000_0000, 128);
    }
    let x: i128 = (a.x as i128) * d + c * ae;
    let y: i128 = (a.y as i128) * d + c * an;
    let p = if d < 0 {
        Point { x: -x, y: -y, den: -d }
    } else {
        Point { x, y, den: d }
    };
    proof {
        lemma_meet_on_tracks(a, b);
    }
    Some(p)
}

/// Whether the rational point lies within the box spanned by the two ends of
/// the ship's hull, bounds included.
pub fn ship_contains(p: &Point, ship: &BattleshipMovement) -> (r: bool)
    requires
        p.wf(),
        ship.direction.wf(),
    ensures
        r == hull_contains(p.x as int, p.y as int, p.den as int, *ship),
{
    let e = ship.direction.east as i128;
    let n = ship.direction.north as i128;
    let len = ship.length as i128;
    proof {
        lemma_i8_product(e as int, e as int);
        lemma_i8_product(n as int, n as int);
        assert(0 <= e * e && 0 <= n * n) by (nonlinear_arith);
        lemma_mul_bound(ship.x as int, p.den as int, 0x8000_0000, 0x8000);
        lemma_mul_bound(ship.y as int, p.den as int, 0x8000_0000, 0x8000);
        lemma_mul_bound(len as int, p.den as int, 0x1_0000_0000, 0x8000);
    }
    let norm2: i128 = e * e + n * n;
    let ld: i128 = len * p.den;
    let ox: i128 = p.x - (ship.x as i128) * p.den;
    let oy: i128 = p.y - (ship.y as i128) * p.den;
    let in_x = extent_holds(ox, e, norm2, ld);
    let in_y = extent_holds(oy, n, norm2, ld);
    proof {
        assert(e * e * (len * len) * (p.den * p.den) == e * e * len * len * p.den * p.den)
            by (nonlinear_arith);
        assert(n * n * (len * len) * (p.den * p.den) == n * n * len * len * p.den * p.den)
            by (nonlinear_arith);
        assert(e * e * (ld * ld) == e * e * (len * len) * (p.den * p.den)) by (nonlinear_arith)
            requires
                ld == len * p.den,
        ;
        assert(n * n * (ld * ld) == n * n * (len * len) * (p.den * p.den)) by (nonlinear_arith)
            requires
                ld == len * p.den,
        ;
    }
    in_x && in_y
}

/// `4 * offset^2 * norm2 <= component^2 * scaled^2`, evaluated without overflow.
fn extent_holds(offset: i128, component: i128, norm2: i128, scaled: i128) -> (r: bool)
    requires
        -0x2_0000_0000_0000 <= offset <= 0x2_0000_0000_0000,
        -128 <= component <= 128,
        0 <= norm2 <= 0x8000,
        0 <= scaled <= 0x8000_0000_0000,
    ensures
        r == (4 * offset * offset * norm2 <= component * component * (scaled * scaled)),
{
    assert(0 <= offset * offset <= 0x4_0000_0000_0000_0000_0000_0000) by (nonlinear_arith)
        requires
            -0x2_0000_0000_0000 <= offset <= 0x2_0000_0000_0000,
    ;
    assert(0 <= scaled * scaled <= 0x4000_0000_0000_0000_0000_0000) by (nonlinear_arith)
        requires
            0 <= scaled <= 0x8000_0000_0000,
    ;
    assert(0 <= component * component <= 0x4000) by (nonlinear_arith)
        requires
            -128 <= component <= 128,
    ;
    let o2: i128 = offset * offset;
    let s2: i128 = scaled * scaled;
    let c2: i128 = component * component;
    assert(0 <= o2 * norm2 <= 0x4_0000_0000_0000_0000_0000_0000 * 0x8000) by (nonlinear_arith)
        requires
            0 <= o2 <= 0x4_0000_0000_0000_0000_0000_0000,
            0 <= norm2 <= 0x8000,
    ;
    assert(0 <= c2 * s2 <= 0x4000 * 0x4000_0000_0000_0000_0000_0000) by (nonlinear_arith)
        requires
            0 <= c2 <= 0x4000,
            0 <= s2 <= 0x4000_0000_0000_0000_0000_0000,
    ;
    let lhs: i128 = o2 * norm2;
    assert(4 * offset * offset * norm2 == 4 * lhs) by (nonlinear_arith)
        requires
            lhs == o2 * norm2,
            o2 == offset * offset,
    ;
    4 * lhs <= c2 * s2
}

/// Whether the projectile's ground track crosses the ship's hull line at a
/// point within the hull's box. Parallel tracks never collide.
pub fn detect_collision(bullet: BulletMovement, battleship: BattleshipMovement) -> (r: bool)
    requires
        battleship.direction.wf(),
    ensures
        r == collides(bullet, battleship),
{
    let track = HorizontalPosition { x: bullet.x, y: bullet.y, direction: bullet.direction };
    let hull = HorizontalPosition {
        x: battleship.x,
        y: battleship.y,
        direction: battleship.direction,
    };
    match detect_horizontal_collision(track, hull) {
        Some(p) => ship_contains(&p, &battleship),
        None => false,
    }
}

/// The crossing point of two tracks that are not parallel lies on both of
/// them, exactly.
pub proof fn lemma_meet_on_tracks(a: HorizontalPosition, b: HorizontalPosition)
    requires
        !parallel(a.direction, b.direction),
    ensures
        meet_den(a, b) > 0,
        on_track(meet_x(a, b), meet_y(a, b), meet_den(a, b), a),
        on_track(meet_x(a, b), meet_y(a, b), meet_den(a, b), b),
{
    let d = cross(a.direction, b.direction);
    let c = offset_cross(a, b);
    let s = orient(a, b);
    let (ue, un, ve, vn) = (
        a.direction.east as int,
        a.direction.north as int,
        b.direction.east as int,
        b.direction.north as int,
    );
    let (ax, ay, bx, by) = (a.x as int, a.y as int, b.x as int, b.y as int);
    let x0 = ax * d + c * ue;
    let y0 = ay * d + c * un;
    assert(d == ue * vn - un * ve);
    assert(c == (bx - ax) * vn - (by - ay) * ve);
    assert((x0 - ax * d) * un == (y0 - ay * d) * ue) by (nonlinear_arith)
        requires
            x0 == ax * d + c * ue,
            y0 == ay * d + c * un,
    ;
    let (p, q) = (ax - bx, ay - by);
    assert(x0 - bx * d == p * d + c * ue) by (nonlinear_arith)
        requires
            x0 == ax * d + c * ue,
            p == ax - bx,
    ;
    assert(y0 - by * d == q * d + c * un) by (nonlinear_arith)
        requires
            y0 == ay * d + c * un,
            q == ay - by,
    ;
    assert((p * d + c * ue) * vn == d * (p * vn) + c * (ue * vn)) by (nonlinear_arith);
    assert((q * d + c * un) * ve == d * (q * ve) + c * (un * ve)) by (nonlinear_arith);
    assert(c == -(p * vn) + q * ve) by (nonlinear_arith)
        requires
            c == (bx - ax) * vn - (by - ay) * ve,
            p == ax - bx,
            q == ay - by,
    ;
    assert(d * (p * vn) - d * (q * ve) == -(d * c)) by (nonlinear_arith)
        requires
            c == -(p * vn) + q * ve,
    ;
    assert(c * (ue * vn) - c * (un * ve) == c * d) by (nonlinear_arith)
        requires
            d == ue * vn - un * ve,
    ;
    assert((x0 - bx * d) * vn == (y0 - by * d) * ve);
    lemma_scaled_on_track(x0, y0, d, s, a);
    lemma_scaled_on_track(x0, y0, d, s, b);
    assert(meet_den(a, b) > 0) by (nonlinear_arith)
        requires
            meet_den(a, b) == s * d,
            s == (if d < 0 { -1int } else { 1int }),
            d != 0,
    ;
}

/// Scaling a point's numerators and denominator together keeps it on a track.
proof fn lemma_scaled_on_track(x: int, y: int, d: int, s: int, t: HorizontalPosition)
    requires
        on_track(x, y, d, t),
    ensures
        on_track(s * x, s * y, s * d, t),
{
    let (tx, ty, te, tn) = (t.x as int, t.y as int, t.direction.east as int, t.direction.north as int);
    let k = x - tx * d;
    let m = y - ty * d;
    assert(s * x - tx * (s * d) == s * k) by (nonlinear_arith)
        requires
            k == x - tx * d,
    ;
    assert(s * y - ty * (s * d) == s * m) by (nonlinear_arith)
        requires
            m == y - ty * d,
    ;
    assert((s * k) * tn == (s * m) * te) by (nonlinear_arith)
        requires
            k * tn == m * te,
    ;
}

/// The crossing point is the only point on both tracks: any rational point
/// `(px / k, py / k)` with `k > 0` on both of them is the crossing point.
pub proof fn lemma_meet_unique(a: HorizontalPosition, b: HorizontalPosition, px: int, py: int, k: int)
    requires
        !parallel(a.direction, b.direction),
        k > 0,
        on_track(px, py, k, a),
        on_track(px, py, k, b),
    ensures
        px * meet_den(a, b) == meet_x(a, b) * k,
        py * meet_den(a, b) == meet_y(a, b) * k,
{
    let d = cross(a.direction, b.direction);
    let c = offset_cross(a, b);
    let (ue, un, ve, vn) = (
        a.direction.east as int,
        a.direction.north as int,
        b.direction.east as int,
        b.direction.north as int,
    );
    let (ax, ay, bx, by) = (a.x as int, a.y as int, b.x as int, b.y as int);
    let u = px - ax * k;
    let v = py - ay * k;
    assert(u * un == v * ue);
    assert((px - bx * k) * vn == (py - by * k) * ve);
    assert(px - bx * k == u + (ax - bx) * k) by (nonlinear_arith)
        requires
            u == px - ax * k,
    ;
    assert(py - by * k == v + (ay - by) * k) by (nonlinear_arith)
        requires
            v == py - ay * k,
    ;
    // the offset from `a` runs along `a`, and its cross with `b`'s heading is `k * c`
    assert(u * vn - v * ve == k * c) by (nonlinear_arith)
        requires
            (u + (ax - bx) * k) * vn == (v + (ay - by) * k) * ve,
            c == (bx - ax) * vn - (by - ay) * ve,
    ;
    assert(u * d == ue * (u * vn - v * ve)) by (nonlinear_arith)
        requires
            d == ue * vn - un * ve,
            u * un == v * ue,
    ;
    assert(v * d == un * (u * vn - v * ve)) by (nonlinear_arith)
        requires
            d == ue * vn - un * ve,
            u * un == v * ue,
    ;
    assert(px * d == k * (ax * d + c * ue)) by (nonlinear_arith)
        requires
            u == px - ax * k,
            u * d == ue * (k * c),
    ;
    assert(py * d == k * (ay * d + c * un)) by (nonlinear_arith)
        requires
            v == py - ay * k,
            v * d == un * (k * c),
    ;
    let s = orient(a, b);
    assert(px * (s * d) == (s * (ax * d + c * ue)) * k) by (nonlinear_arith)
        requires
            px * d == k * (ax * d + c * ue),
    ;
    assert(py * (s * d) == (s * (ay * d + c * un)) * k) by (nonlinear_arith)
        requires
            py * d == k * (ay * d + c * un),
    ;
}

/// Crossing is symmetric: the point where the track of `a` meets the track
/// of `b` is the point where the track of `b` meets the track of `a`, written
/// the same way.
pub proof fn lemma_meet_symmetric(a: HorizontalPosition, b: HorizontalPosition)
    requires
        !parallel(a.direction, b.direction),
    ensures
        meet_x(a, b) == meet_x(b, a),
        meet_y(a, b) == meet_y(b, a),
        meet_den(a, b) == meet_den(b, a),
{
    let d = cross(a.direction, b.direction);
    let (ue, un, ve, vn) = (
        a.direction.east as int,
        a.direction.north as int,
        b.direction.east as int,
        b.direction.north as int,
    );
    let (ax, ay, bx, by) = (a.x as int, a.y as int, b.x as int, b.y as int);
    let (p, q) = (bx - ax, by - ay);
    let cab = offset_cross(a, b);
    let cba = offset_cross(b, a);
    assert(cross(b.direction, a.direction) == -d);
    assert(cab == p * vn - q * ve);
    assert(cba == (ax - bx) * un - (ay - by) * ue);
    assert(cba == -(p * un) + q * ue) by (nonlinear_arith)
        requires
            cba == (ax - bx) * un - (ay - by) * ue,
            p == bx - ax,
            q == by - ay,
    ;
    assert(p * d == p * (ue * vn) - p * (un * ve)) by (nonlinear_arith)
        requires
            d == ue * vn - un * ve,
    ;
    assert(q * d == q * (ue * vn) - q * (un * ve)) by (nonlinear_arith)
        requires
            d == ue * vn - un * ve,
    ;
    assert(cab * ue == (p * vn) * ue - (q * ve) * ue) by (nonlinear_arith)
        requires
            cab == p * vn - q * ve,
    ;
    assert(cab * un == (p * vn) * un - (q * ve) * un) by (nonlinear_arith)
        requires
            cab == p * vn - q * ve,
    ;
    assert(cba * ve == -((p * un) * ve) + (q * ue) * ve) by (nonlinear_arith)
        requires
            cba == -(p * un) + q * ue,
    ;
    assert(cba * vn == -((p * un) * vn) + (q * ue) * vn) by (nonlinear_arith)
        requires
            cba == -(p * un) + q * ue,
    ;
    assert(p * (ue * vn) == (p * vn) * ue) by (nonlinear_arith);
    assert(p * (un * ve) == (p * un) * ve) by (nonlinear_arith);
    assert((q * ve) * ue == (q * ue) * ve) by (nonlinear_arith);
    assert(q * (ue * vn) == (q * ue) * vn) by (nonlinear_arith);
    assert(q * (un * ve) == (q * ve) * un) by (nonlinear_arith);
    assert((p * vn) * un == (p * un) * vn) by (nonlinear_arith);
    // ax * d + cab * ue == bx * d - cba * ve, and likewise along y
    assert(ax * d + cab * ue == bx * d - cba * ve) by (nonlinear_arith)
        requires
            p == bx - ax,
            p * d == p * (ue * vn) - p * (un * ve),
            cab * ue == (p * vn) * ue - (q * ve) * ue,
            cba * ve == -((p * un) * ve) + (q * ue) * ve,
            p * (ue * vn) == (p * vn) * ue,
            p * (un * ve) == (p * un) * ve,
            (q * ve) * ue == (q * ue) * ve,
    ;
    assert(ay * d + cab * un == by * d - cba * vn) by (nonlinear_arith)
        requires
            q == by - ay,
            q * d == q * (ue * vn) - q * (un * ve),
            cab * un == (p * vn) * un - (q * ve) * un,
            cba * vn == -((p * un) * vn) + (q * ue) * vn,
            q * (ue * vn) == (q * ue) * vn,
            q * (un * ve) == (q * ve) * un,
            (p * vn) * un == (p * un) * vn,
    ;
    assert(bx * (-d) == -(bx * d)) by (nonlinear_arith);
    assert(by * (-d) == -(by * d)) by (nonlinear_arith);
    if d < 0 {
        assert(orient(a, b) == -1 && orient(b, a) == 1);
    } else {
        assert(orient(a, b) == 1 && orient(b, a) == -1);
    }
}

/// The containment test includes its bounds: for a ship facing along an axis,
/// both ends of its hull, `centre -+ heading * length / 2`, are contained.
pub proof fn lemma_hull_ends_contained(ship: BattleshipMovement)
    requires
        ship.direction.wf(),
        ship.direction.axis_aligned(),
    ensures
        ship.direction.east == 0 ==> hull_contains(2 * ship.x, 2 * ship.y + ship.length, 2, ship)
            && hull_contains(2 * ship.x, 2 * ship.y - ship.length, 2, ship),
        ship.direction.north == 0 ==> hull_contains(2 * ship.x + ship.length, 2 * ship.y, 2, ship)
            && hull_contains(2 * ship.x - ship.length, 2 * ship.y, 2, ship),
{
    let e = ship.direction.east as int;
    let n = ship.direction.north as int;
    let len = ship.length as int;
    let norm2 = e * e + n * n;
    if e == 0 {
        assert(within_extent(0, e, norm2, len, 2)) by (nonlinear_arith)
            requires
                e == 0,
        ;
        assert(within_extent(len, n, norm2, len, 2)) by (nonlinear_arith)
            requires
                norm2 == e * e + n * n,
                e == 0,
        ;
        assert(within_extent(-len, n, norm2, len, 2)) by (nonlinear_arith)
            requires
                norm2 == e * e + n * n,
                e == 0,
        ;
    }
    if n == 0 {
        assert(within_extent(0, n, norm2, len, 2)) by (nonlinear_arith)
            requires
                n == 0,
        ;
        assert(within_extent(len, e, norm2, len, 2)) by (nonlinear_arith)
            requires
                norm2 == e * e + n * n,
                n == 0,
        ;
        assert(within_extent(-len, e, norm2, len, 2)) by (nonlinear_arith)
            requires
                norm2 == e * e + n * n,
                n == 0,
        ;
    }
}

} // verus!
