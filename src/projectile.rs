use vstd::prelude::*;

verus! {

/// Vertical speed that gravity (9.8 units per second squared) takes away in
/// one millisecond, in micro-units per second.
pub const GRAVITY_PER_MS: i64 = 9800;

/// Horizontal speed along x, in micro-units per second.
#[derive(Clone, Copy, Debug, PartialEq, Eq, Structural)]
pub struct XVelocity(pub i64);

/// Horizontal speed along y, in micro-units per second.
#[derive(Clone, Copy, Debug, PartialEq, Eq, Structural)]
pub struct YVelocity(pub i64);

/// Vertical speed, in micro-units per second; gravity lowers it every tick.
#[derive(Clone, Copy, Debug, PartialEq, Eq, Structural)]
pub struct ZVelocity(pub i64);

/// What a projectile struck when it came down.
#[derive(Clone, Copy, Debug, PartialEq, Eq, Structural)]
pub enum BrustType {
    HitIntoWater,
    HitIntoShip,
}

/// The record of a projectile's end: what it hit and where, on the ground plane.
#[derive(Clone, Copy, Debug, PartialEq, Eq, Structural)]
pub struct BrustEvent {
    pub typ: BrustType,
    pub x: i64,
    pub y: i64,
}

/// A projectile in flight. Positions are in nano-units, `z` being the height
/// above the water; a tick's length is given in milliseconds, so that a
/// velocity times a tick is a whole number of nano-units.
#[derive(Clone, Copy, Debug, PartialEq, Eq, Structural)]
pub struct Projectile {
    pub x: i64,
    pub y: i64,
    pub z: i64,
    pub x_velocity: XVelocity,
    pub y_velocity: YVelocity,
    pub z_velocity: ZVelocity,
}

/// The outcome of one tick for one projectile.
#[derive(Clone, Copy, Debug, PartialEq, Eq, Structural)]
pub enum Step {
    /// Still above the water, with its new position and vertical speed.
    Flying(Projectile),
    /// Came down this tick; it takes no further part in the simulation.
    Landed(BrustEvent),
}

pub open spec fn fits_i64(v: int) -> bool {
    i64::MIN <= v <= i64::MAX
}

/// Every quantity that a tick of length `dt` computes fits in an `i64`.
pub open spec fn step_fits(p: Projectile, dt: int) -> bool {
    &&& fits_i64(p.x_velocity.0 * dt)
    &&& fits_i64(p.y_velocity.0 * dt)
    &&& fits_i64(p.z_velocity.0 * dt)
    &&& fits_i64(p.x + p.x_velocity.0 * dt)
    &&& fits_i64(p.y + p.y_velocity.0 * dt)
    &&& fits_i64(p.z + p.z_velocity.0 * dt)
    &&& fits_i64(GRAVITY_PER_MS * dt)
    &&& fits_i64(p.z_velocity.0 - GRAVITY_PER_MS * dt)
}

/// One forward-Euler tick: the position moves by the velocities held before
/// the tick; a projectile whose new height is below zero lands where it now
/// is, and any other one loses vertical speed to gravity.
pub open spec fn step_spec(p: Projectile, dt: int) -> Step {
    let x = p.x + p.x_velocity.0 * dt;
    let y = p.y + p.y_velocity.0 * dt;
    let z = p.z + p.z_velocity.0 * dt;
    if z < 0 {
        Step::Landed(BrustEvent { typ: BrustType::HitIntoWater, x: x as i64, y: y as i64 })
    } else {
        Step::Flying(
            Projectile {
                x: x as i64,
                y: y as i64,
                z: z as i64,
                x_velocity: p.x_velocity,
                y_velocity: p.y_velocity,
                z_velocity: ZVelocity((p.z_velocity.0 - GRAVITY_PER_MS * dt) as i64),
            },
        )
    }
}

/// The projectiles of `s` that are still flying after a tick, advanced, in
/// their order.
pub open spec fn survivors(s: Seq<Projectile>, dt: int) -> Seq<Projectile>
    decreases s.len(),
{
    if s.len() == 0 {
        Seq::empty()
    } else {
        let rest = survivors(s.drop_last(), dt);
        match step_spec(s.last(), dt) {
            Step::Flying(q) => rest.push(q),
            Step::Landed(_) => rest,
        }
    }
}

/// One event for each projectile of `s` that lands in a tick, in their order.
pub open spec fn impacts(s: Seq<Projectile>, dt: int) -> Seq<BrustEvent>
    decreases s.len(),
{
    if s.len() == 0 {
        Seq::empty()
    } else {
        let rest = impacts(s.drop_last(), dt);
        match step_spec(s.last(), dt) {
            Step::Flying(_) => rest,
            Step::Landed(e) => rest.push(e),
        }
    }
}

/// Advances one projectile by a tick of `dt` milliseconds.
pub fn advance(p: &Projectile, dt: i64) -> (r: Step)
    requires
        dt >= 0,
        step_fits(*p, dt as int),
    ensures
        r == step_spec(*p, dt as int),
{
    let x = p.x + p.x_velocity.0 * dt;
    let y = p.y + p.y_velocity.0 * dt;
    let z = p.z + p.z_velocity.0 * dt;
    if z < 0 {
        Step::Landed(BrustEvent { typ: BrustType::HitIntoWater, x, y })
    } else {
        Step::Flying(
            Projectile {
                x,
                y,
                z,
                x_velocity: p.x_velocity,
                y_velocity: p.y_velocity,
                z_velocity: ZVelocity(p.z_velocity.0 - GRAVITY_PER_MS * dt),
            },
        )
    }
}

/// Runs one tick of `dt` milliseconds over all projectiles in flight: those
/// still above the water stay, advanced and in their order; each one that came
/// down is removed and yields exactly one event, in the same order.
pub fn projectile_system(projectiles: &mut Vec<Projectile>, dt: i64) -> (events: Vec<BrustEvent>)
    requires
        dt >= 0,
        forall|i: int| 0 <= i < old(projectiles)@.len() ==> step_fits(#[trigger] old(projectiles)@[i], dt as int),
    ensures
        final(projectiles)@ == survivors(old(projectiles)@, dt as int),
        events@ == impacts(old(projectiles)@, dt as int),
{
    let ghost start = projectiles@;
    let mut live: Vec<Projectile> = Vec::new();
    let mut events: Vec<BrustEvent> = Vec::new();
    let n = projectiles.len();
    for i in 0..n
        invariant
            n == start.len(),
            projectiles@ == start,
            dt >= 0,
            forall|k: int| 0 <= k < start.len() ==> step_fits(#[trigger] start[k], dt as int),
            live@ == survivors(start.take(i as int), dt as int),
            events@ == impacts(start.take(i as int), dt as int),
    {
        assert(start.take(i as int + 1).drop_last() =~= start.take(i as int));
        match advance(&projectiles[i], dt) {
            Step::Flying(q) => live.push(q),
            Step::Landed(e) => events.push(e),
        }
    }
    assert(start.take(n as int) =~= start);
    *projectiles = live;
    events
}

} // verus!
