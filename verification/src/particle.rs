use vstd::prelude::*;
use crate::fp::{
    COORD_CAP, SCALE, abs_i, abs64, clamp_s, clamp128, div_t, is_sqrt_floor, isqrt_u128,
    lemma_div_t_bound, mul_div_t, mul3_div_t, sqrt_floor,
};
use crate::arena::{Arena, DT_CAP, MASS_CAP};

verus! {

/// Collision slack in fixed-point pixels (0.5 px): centers closer than the
/// radius sum plus this slack count as touching.
pub const HALF_SLACK: i64 = 500;

/// A two-dimensional vector of fixed-point components.
#[derive(Clone, Copy, PartialEq, Eq, Structural, Debug)]
pub struct Vec2 {
    pub x: i64,
    pub y: i64,
}

/// An RGB color, one byte per channel.
#[derive(Clone, Copy, PartialEq, Eq, Structural, Debug)]
pub struct Rgb {
    pub r: u8,
    pub g: u8,
    pub b: u8,
}

/// A circular body: center, velocity, radius, mass and color.
/// Radius and mass never change after creation.
#[derive(Clone, Copy, PartialEq, Eq, Structural, Debug)]
pub struct Particle {
    pub pos: Vec2,
    pub vel: Vec2,
    pub rad: i64,
    pub mass: i64,
    pub color: Rgb,
}

/// Both components of `v` have magnitude at most `cap`.
pub open spec fn vec_bounded(v: Vec2, cap: int) -> bool {
    abs_i(v.x as int) <= cap && abs_i(v.y as int) <= cap
}

/// One axis of the wall bounce: approaching the near wall forces the
/// velocity to `|vel| * e` (scaled), the far wall to `-|vel| * e`.
pub open spec fn reflect_axis(pos: int, rad: int, vel: int, limit: int, e: int) -> int {
    if pos - rad < 0 {
        div_t(abs_i(vel) * e, SCALE as int)
    } else if pos + rad > limit {
        -div_t(abs_i(vel) * e, SCALE as int)
    } else {
        vel
    }
}

/// One axis of the position advance `pos + vel * dt`, saturated to the
/// representable range.
pub open spec fn advance_pos_axis(pos: int, rvel: int, dt: int) -> int {
    clamp_s(pos + div_t(rvel * dt, SCALE as int), COORD_CAP as int)
}

/// One axis of the velocity advance `vel + (acc - vel^2 * res) * dt`,
/// saturated to the representable range.
pub open spec fn advance_vel_axis(rvel: int, acc: int, res: int, dt: int) -> int {
    let drag = div_t(rvel * rvel * res, SCALE as int * SCALE as int);
    clamp_s(rvel + div_t((acc - drag) * dt, SCALE as int), COORD_CAP as int)
}

/// The whole per-tick motion of one particle: wall reflection first, then
/// the position advance with the reflected velocity, then acceleration and
/// quadratic resistance. Radius, mass and color are untouched.
pub open spec fn update_spec(p: Particle, a: Arena, dt: int) -> Particle {
    let rvx = reflect_axis(p.pos.x as int, p.rad as int, p.vel.x as int, a.width as int,
        a.restitution as int);
    let rvy = reflect_axis(p.pos.y as int, p.rad as int, p.vel.y as int, a.height as int,
        a.restitution as int);
    Particle {
        pos: Vec2 {
            x: advance_pos_axis(p.pos.x as int, rvx, dt) as i64,
            y: advance_pos_axis(p.pos.y as int, rvy, dt) as i64,
        },
        vel: Vec2 {
            x: advance_vel_axis(rvx, a.accel.x as int, a.resist.x as int, dt) as i64,
            y: advance_vel_axis(rvy, a.accel.y as int, a.resist.y as int, dt) as i64,
        },
        rad: p.rad,
        mass: p.mass,
        color: p.color,
    }
}

/// Squared center-to-center distance.
pub open spec fn dist_sq(a: Particle, b: Particle) -> int {
    let dx = a.pos.x - b.pos.x;
    let dy = a.pos.y - b.pos.y;
    dx * dx + dy * dy
}

/// Squared magnitude of a vector.
pub open spec fn speed_sq(v: Vec2) -> int {
    v.x * v.x + v.y * v.y
}

/// Centers within the radius sum plus half a pixel of slack.
pub open spec fn is_colliding_spec(a: Particle, b: Particle) -> bool {
    sqrt_floor(dist_sq(a, b)) <= a.rad + b.rad + HALF_SLACK
}

impl Particle {
    /// Radius and mass are positive, every component is representable.
    pub open spec fn valid(self) -> bool {
        &&& 0 < self.rad <= COORD_CAP
        &&& 0 < self.mass <= MASS_CAP
        &&& vec_bounded(self.pos, COORD_CAP as int)
        &&& vec_bounded(self.vel, COORD_CAP as int)
    }

    /// Builds a particle from its fields.
    pub fn new(pos: Vec2, vel: Vec2, rad: i64, mass: i64, color: Rgb) -> (r: Particle)
        ensures
            r == (Particle { pos, vel, rad, mass, color }),
    {
        Particle { pos, vel, rad, mass, color }
    }

    /// Runtime check of the particle invariant.
    pub fn is_valid(&self) -> (r: bool)
        ensures
            r == self.valid(),
    {
        0 < self.rad && self.rad <= COORD_CAP && 0 < self.mass && self.mass <= MASS_CAP
            && -COORD_CAP <= self.pos.x && self.pos.x <= COORD_CAP && -COORD_CAP <= self.pos.y
            && self.pos.y <= COORD_CAP && -COORD_CAP <= self.vel.x && self.vel.x <= COORD_CAP
            && -COORD_CAP <= self.vel.y && self.vel.y <= COORD_CAP
    }

    /// Advances this particle by `dt`: wall reflection, position advance,
    /// then acceleration and resistance.
    pub fn update(&mut self, arena: &Arena, dt: i64)
        requires
            old(self).valid(),
            arena.valid(),
            0 <= dt <= DT_CAP,
        ensures
            *final(self) == update_spec(*old(self), *arena, dt as int),
            final(self).valid(),
    {
        let rvx = reflect_axis_exec(self.pos.x, self.rad, self.vel.x, arena.width,
            arena.restitution);
        let rvy = reflect_axis_exec(self.pos.y, self.rad, self.vel.y, arena.height,
            arena.restitution);
        self.pos.x = advance_pos_axis_exec(self.pos.x, rvx, dt);
        self.pos.y = advance_pos_axis_exec(self.pos.y, rvy, dt);
        self.vel.x = advance_vel_axis_exec(rvx, arena.accel.x, arena.resist.x, dt);
        self.vel.y = advance_vel_axis_exec(rvy, arena.accel.y, arena.resist.y, dt);
    }

    /// Euclidean center distance, rounded down to the fixed-point grid.
    pub fn distance(&self, other: &Particle) -> (r: i64)
        requires
            self.valid(),
            other.valid(),
        ensures
            r as int == sqrt_floor(dist_sq(*self, *other)),
            is_sqrt_floor(dist_sq(*self, *other), r as int),
            r >= 0,
    {
        let dx: i128 = self.pos.x as i128 - other.pos.x as i128;
        let dy: i128 = self.pos.y as i128 - other.pos.y as i128;
        proof {
            assert(dx * dx >= 0 && dx * dx <= (2 * COORD_CAP) * (2 * COORD_CAP) && dy * dy >= 0
                && dy * dy <= (2 * COORD_CAP) * (2 * COORD_CAP)) by (nonlinear_arith)
                requires
                    abs_i(dx as int) <= 2 * COORD_CAP,
                    abs_i(dy as int) <= 2 * COORD_CAP,
            ;
        }
        let sq: u128 = (dx * dx) as u128 + (dy * dy) as u128;
        let m = isqrt_u128(sq);
        proof {
            assert(m < 0x8_0000_0000u64) by (nonlinear_arith)
                requires
                    (m as int) * (m as int) <= sq as int,
                    sq as int <= 2 * ((2 * COORD_CAP) * (2 * COORD_CAP)),
                    COORD_CAP == 10_000_000_000i64,
            ;
        }
        m as i64
    }

    /// Whether this particle touches `other`, with half a pixel of slack.
    pub fn is_colliding(&self, other: &Particle) -> (r: bool)
        requires
            self.valid(),
            other.valid(),
        ensures
            r == is_colliding_spec(*self, *other),
    {
        self.distance(other) <= self.rad + other.rad + HALF_SLACK
    }

    /// Speed: the magnitude of the velocity, rounded down.
    pub fn vel_magnitude(&self) -> (r: i64)
        requires
            self.valid(),
        ensures
            r as int == sqrt_floor(speed_sq(self.vel)),
            is_sqrt_floor(speed_sq(self.vel), r as int),
            r >= 0,
    {
        let vx: i128 = self.vel.x as i128;
        let vy: i128 = self.vel.y as i128;
        proof {
            assert(vx * vx >= 0 && vx * vx <= COORD_CAP * COORD_CAP && vy * vy >= 0 && vy * vy
                <= COORD_CAP * COORD_CAP) by (nonlinear_arith)
                requires
                    abs_i(vx as int) <= COORD_CAP,
                    abs_i(vy as int) <= COORD_CAP,
            ;
        }
        let sq: u128 = (vx * vx) as u128 + (vy * vy) as u128;
        let m = isqrt_u128(sq);
        proof {
            assert(m < 0x8_0000_0000u64) by (nonlinear_arith)
                requires
                    (m as int) * (m as int) <= sq as int,
                    sq as int <= 2 * (COORD_CAP * COORD_CAP),
                    COORD_CAP == 10_000_000_000i64,
            ;
        }
        m as i64
    }
}

/// Exec form of `reflect_axis`; the result keeps the velocity cap because
/// the restitution is at most one.
fn reflect_axis_exec(pos: i64, rad: i64, vel: i64, limit: i64, e: i64) -> (r: i64)
    requires
        abs_i(pos as int) <= COORD_CAP,
        abs_i(vel as int) <= COORD_CAP,
        0 < rad <= COORD_CAP,
        0 <= e <= SCALE,
    ensures
        r as int == reflect_axis(pos as int, rad as int, vel as int, limit as int, e as int),
        abs_i(r as int) <= COORD_CAP,
{
    let av = abs64(vel);
    proof {
        assert(av * e <= COORD_CAP * SCALE) by (nonlinear_arith)
            requires
                0 <= av <= COORD_CAP,
                0 <= e <= SCALE,
        ;
        lemma_div_t_bound(av as int * e as int, SCALE as int, COORD_CAP as int);
    }
    let bounce: i64 = mul_div_t(av as i128, e as i128, SCALE as i128) as i64;
    if pos - rad < 0 {
        bounce
    } else if pos + rad > limit {
        -bounce
    } else {
        vel
    }
}

/// Exec form of `advance_pos_axis`.
fn advance_pos_axis_exec(pos: i64, rvel: i64, dt: i64) -> (r: i64)
    requires
        abs_i(pos as int) <= COORD_CAP,
        abs_i(rvel as int) <= COORD_CAP,
        0 <= dt <= DT_CAP,
    ensures
        r as int == advance_pos_axis(pos as int, rvel as int, dt as int),
        abs_i(r as int) <= COORD_CAP,
{
    let shift: i128 = mul_div_t(rvel as i128, dt as i128, SCALE as i128);
    proof {
        assert(abs_i(rvel as int * dt as int) <= 0x10_0000_0000_0000_0000_0000 * SCALE)
            by (nonlinear_arith)
            requires
                abs_i(rvel as int) <= COORD_CAP,
                0 <= dt <= DT_CAP,
                COORD_CAP == 10_000_000_000i64,
                DT_CAP == 1_000_000i64,
                SCALE == 1000i64,
        ;
        lemma_div_t_bound(rvel as int * dt as int, SCALE as int, 0x10_0000_0000_0000_0000_0000int);
    }
    clamp128(pos as i128 + shift, COORD_CAP)
}

/// Exec form of `advance_vel_axis`.
fn advance_vel_axis_exec(rvel: i64, acc: i64, res: i64, dt: i64) -> (r: i64)
    requires
        abs_i(rvel as int) <= COORD_CAP,
        abs_i(acc as int) <= 1_000_000_000,
        abs_i(res as int) <= 1_000_000,
        0 <= dt <= DT_CAP,
    ensures
        r as int == advance_vel_axis(rvel as int, acc as int, res as int, dt as int),
        abs_i(r as int) <= COORD_CAP,
{
    let drag: i128 = mul3_div_t(rvel as i128, rvel as i128, res as i128, (SCALE as i128) * (
    SCALE as i128));
    proof {
        assert(abs_i(rvel as int * rvel as int * res as int) <= 100_000_000_000_000_000_000int * (
        SCALE * SCALE)) by (nonlinear_arith)
            requires
                abs_i(rvel as int) <= COORD_CAP,
                abs_i(res as int) <= 1_000_000,
                COORD_CAP == 10_000_000_000i64,
                SCALE == 1000i64,
        ;
        lemma_div_t_bound(rvel as int * rvel as int * res as int, SCALE as int * SCALE as int,
            100_000_000_000_000_000_000int);
    }
    let force: i128 = acc as i128 - drag;
    proof {
        assert(abs_i(force as int * dt as int) <= (100_000_000_000_000_000_000int + 1_000_000_000)
            * 1_000_000) by (nonlinear_arith)
            requires
                abs_i(force as int) <= 100_000_000_000_000_000_000int + 1_000_000_000,
                0 <= dt <= 1_000_000,
        ;
        lemma_div_t_bound(force as int * dt as int, SCALE as int, (100_000_000_000_000_000_000int
            + 1_000_000_000) * 1000);
    }
    let dv: i128 = mul_div_t(force, dt as i128, SCALE as i128);
    clamp128(rvel as i128 + dv, COORD_CAP)
}

/// Wall reflection is idempotent in direction: past the near wall the
/// reflected velocity component is nonnegative; past the far wall it is
/// nonpositive.
pub proof fn lemma_reflection_direction(pos: int, rad: int, vel: int, limit: int, e: int)
    requires
        0 <= e,
    ensures
        pos - rad < 0 ==> reflect_axis(pos, rad, vel, limit, e) >= 0,
        !(pos - rad < 0) && pos + rad > limit ==> reflect_axis(pos, rad, vel, limit, e) <= 0,
{
    assert(abs_i(vel) * e >= 0) by (nonlinear_arith)
        requires
            abs_i(vel) >= 0,
            e >= 0,
    ;
    vstd::arithmetic::div_mod::lemma_div_pos_is_pos(abs_i(vel) * e, SCALE as int);
}

/// The touching predicate is symmetric.
pub proof fn lemma_is_colliding_symmetric(a: Particle, b: Particle)
    ensures
        is_colliding_spec(a, b) == is_colliding_spec(b, a),
{
    assert(dist_sq(a, b) == dist_sq(b, a)) by (nonlinear_arith);
}

} // verus!
