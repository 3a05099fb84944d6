use vstd::prelude::*;

verus! {

/// A direction of travel on the ground plane, given as a vector on the integer
/// lattice: `east` is the x-displacement (the sine of the compass angle) and
/// `north` the y-displacement (its cosine), both up to a common positive factor.
///
/// Compass angles are measured in degrees with 0 facing north and 90 facing
/// east. Working with the vector rather than the angle keeps every geometric
/// question exact: no tangent is ever taken, so the axis-aligned headings need
/// no division by zero to be guarded against.
#[derive(Clone, Copy, Debug, PartialEq, Eq, Structural)]
pub struct Heading {
    pub east: i8,
    pub north: i8,
}

/// Reduces a heading in whole degrees into the range `[0, 360)`.
pub fn mod_direction(direction: i64) -> (r: i64)
    ensures
        0 <= r < 360,
        r == direction as int % 360,
{
    let mut d: i64 = direction % 360;
    if d < 0 {
        d = d + 360;
    }
    d
}

/// The lattice heading of a normalized compass angle that is a multiple of 45
/// degrees; other angles have no exact lattice heading.
pub open spec fn compass_heading(d: int) -> Option<Heading> {
    if d == 0 {
        Some(Heading { east: 0, north: 1 })
    } else if d == 45 {
        Some(Heading { east: 1, north: 1 })
    } else if d == 90 {
        Some(Heading { east: 1, north: 0 })
    } else if d == 135 {
        Some(Heading { east: 1, north: -1i8 })
    } else if d == 180 {
        Some(Heading { east: 0, north: -1i8 })
    } else if d == 225 {
        Some(Heading { east: -1i8, north: -1i8 })
    } else if d == 270 {
        Some(Heading { east: -1i8, north: 0 })
    } else if d == 315 {
        Some(Heading { east: -1i8, north: 1 })
    } else {
        None
    }
}

/// The cross product of two headings: zero exactly when they are parallel
/// (equal or opposite), as two compass angles are when their difference is a
/// multiple of 180 degrees.
pub open spec fn cross(a: Heading, b: Heading) -> int {
    a.east * b.north - a.north * b.east
}

pub open spec fn parallel(a: Heading, b: Heading) -> bool {
    cross(a, b) == 0
}

impl Heading {
    /// A heading is a direction only when its vector is not zero.
    pub open spec fn wf(self) -> bool {
        self.east != 0 || self.north != 0
    }

    /// Axis-aligned headings face north, east, south or west.
    pub open spec fn axis_aligned(self) -> bool {
        self.east == 0 || self.north == 0
    }

    /// The heading along the vector `(east, north)`; none for the zero vector.
    pub fn new(east: i8, north: i8) -> (r: Option<Heading>)
        ensures
            r == (if east == 0 && north == 0 {
                None
            } else {
                Some(Heading { east, north })
            }),
    {
        if east == 0 && north == 0 {
            None
        } else {
            Some(Heading { east, north })
        }
    }

    /// The heading of a compass angle in whole degrees, after normalizing the
    /// angle into `[0, 360)`; defined for the multiples of 45 degrees.
    pub fn from_degrees(direction: i64) -> (r: Option<Heading>)
        ensures
            r == compass_heading(direction as int % 360),
            r matches Some(h) ==> h.wf(),
    {
        let d = mod_direction(direction);
        if d == 0 {
            Some(Heading { east: 0, north: 1 })
        } else if d == 45 {
            Some(Heading { east: 1, north: 1 })
        } else if d == 90 {
            Some(Heading { east: 1, north: 0 })
        } else if d == 135 {
            Some(Heading { east: 1, north: -1 })
        } else if d == 180 {
            Some(Heading { east: 0, north: -1 })
        } else if d == 225 {
            Some(Heading { east: -1, north: -1 })
        } else if d == 270 {
            Some(Heading { east: -1, north: 0 })
        } else if d == 315 {
            Some(Heading { east: -1, north: 1 })
        } else {
            None
        }
    }

    /// Whether the heading faces along one of the two axes.
    pub fn is_axis_aligned(&self) -> (r: bool)
        ensures
            r == self.axis_aligned(),
    {
        self.east == 0 || self.north == 0
    }
}

/// Whether two headings are parallel, so that their tracks never cross in a
/// single point.
pub fn is_parallel(a: Heading, b: Heading) -> (r: bool)
    ensures
        r == parallel(a, b),
{
    proof {
        lemma_i8_product(a.east as int, b.north as int);
        lemma_i8_product(a.north as int, b.east as int);
    }
    let c: i32 = (a.east as i32) * (b.north as i32) - (a.north as i32) * (b.east as i32);
    c == 0
}

/// A product of two `i8` values lies within `[-2^14, 2^14]`.
pub proof fn lemma_i8_product(x: int, y: int)
    requires
        -128 <= x <= 127,
        -128 <= y <= 127,
    ensures
        -16384 <= x * y <= 16384,
{
    assert(-16384 <= x * y <= 16384) by (nonlinear_arith)
        requires
            -128 <= x <= 127,
            -128 <= y <= 127,
    ;
}

/// Two compass headings built from whole degrees are parallel exactly when the
/// difference of their angles is a multiple of 180 degrees.
pub proof fn lemma_parallel_iff_half_turn(da: int, db: int)
    requires
        compass_heading(da % 360) is Some,
        compass_heading(db % 360) is Some,
    ensures
        parallel(compass_heading(da % 360)->Some_0, compass_heading(db % 360)->Some_0) <==> (da
            - db) % 180 == 0,
{
    let na = da % 360;
    let nb = db % 360;
    assert((da - db) % 180 == (na - nb) % 180);
}

} // verus!
