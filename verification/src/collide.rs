use vstd::prelude::*;
use crate::fp::{
    COORD_CAP, SCALE, abs_i, abs64, clamp_s, clamp128, div_t, isqrt_u128, lemma_div_t_bound,
    mul_div_t, sqrt_floor,
};
use crate::particle::{Rgb, Vec2, speed_sq, vec_bounded};
use crate::arena::MASS_CAP;

verus! {

/// The scaled mass ratio `m2 / m1` of a colliding pair.
pub open spec fn mass_ratio(m1: int, m2: int) -> int {
    div_t(m2 * SCALE, m1)
}

/// One axis of the 1D elastic-collision approximation with restitution `e`
/// and mass ratio `r` (both scaled):
/// `v1 = ((1-e)/2) u1 + ((r+e)/2) u2` and `v2 = ((1+e)/2) u1 + ((r-e)/2) u2`,
/// each saturated to the representable range.
pub open spec fn collide_axis(u1: int, u2: int, r: int, e: int) -> (int, int) {
    let v1 = clamp_s(
        div_t((SCALE - e) * u1, 2 * SCALE as int) + div_t((r + e) * u2, 2 * SCALE as int),
        COORD_CAP as int,
    );
    let v2 = clamp_s(
        div_t((SCALE + e) * u1, 2 * SCALE as int) + div_t((r - e) * u2, 2 * SCALE as int),
        COORD_CAP as int,
    );
    (v1, v2)
}

/// Both velocities of a colliding pair, axis by axis.
pub open spec fn collide_spec(u1: Vec2, u2: Vec2, m1: int, m2: int, e: int) -> (Vec2, Vec2) {
    let r = mass_ratio(m1, m2);
    let x = collide_axis(u1.x as int, u2.x as int, r, e);
    let y = collide_axis(u1.y as int, u2.y as int, r, e);
    (Vec2 { x: x.0 as i64, y: y.0 as i64 }, Vec2 { x: x.1 as i64, y: y.1 as i64 })
}

/// A color channel `min(255, 256 * num / den)`.
pub open spec fn channel_s(num: int, den: int) -> int {
    if 256 * num / den > 255 {
        255
    } else {
        256 * num / den
    }
}

/// The color both partners adopt after a collision: a pure function of the
/// two post-collision velocities. `None` when either speed is zero (the
/// division guard; the color is then kept).
pub open spec fn collision_color_spec(v1: Vec2, v2: Vec2) -> Option<Rgb> {
    let s1 = speed_sq(v1);
    let s2 = speed_sq(v2);
    if s1 == 0 || s2 == 0 {
        None
    } else {
        let m1 = sqrt_floor(s1);
        let m2 = sqrt_floor(s2);
        Some(
            Rgb {
                r: channel_s(abs_i(v1.x as int) * abs_i(v1.y as int), m1 * m1) as u8,
                g: channel_s(abs_i(v2.x as int) * abs_i(v2.y as int), m2 * m2) as u8,
                b: channel_s(abs_i(v2.y as int) * abs_i(v1.x as int), m2 * m1) as u8,
            },
        )
    }
}

/// One axis of the executable collision response.
fn collide_axis_exec(u1: i64, u2: i64, ratio: i128, e: i64) -> (r: (i64, i64))
    requires
        abs_i(u1 as int) <= COORD_CAP,
        abs_i(u2 as int) <= COORD_CAP,
        0 <= ratio <= 1_000_000_000_000i128,
        0 <= e <= SCALE,
    ensures
        r.0 as int == collide_axis(u1 as int, u2 as int, ratio as int, e as int).0,
        r.1 as int == collide_axis(u1 as int, u2 as int, ratio as int, e as int).1,
        abs_i(r.0 as int) <= COORD_CAP,
        abs_i(r.1 as int) <= COORD_CAP,
{
    let half: i128 = 2 * (SCALE as i128);
    let keep1: i128 = mul_div_t((SCALE - e) as i128, u1 as i128, half);
    let pass1: i128 = mul_div_t(ratio + (e as i128), u2 as i128, half);
    let keep2: i128 = mul_div_t((SCALE + e) as i128, u1 as i128, half);
    let pass2: i128 = mul_div_t(ratio - (e as i128), u2 as i128, half);
    proof {
        assert(abs_i((SCALE - e) as int * u1 as int) <= 10_000_000_000_000int * (2 * SCALE)
            && abs_i((SCALE + e) as int * u1 as int) <= 10_000_000_000_000int * (2 * SCALE) && abs_i(
            (ratio + e) as int * u2 as int,
        ) <= 10_000_000_000_000_000_000int * (2 * SCALE) && abs_i((ratio - e) as int * u2 as int)
            <= 10_000_000_000_000_000_000int * (2 * SCALE)) by (nonlinear_arith)
            requires
                abs_i(u1 as int) <= COORD_CAP,
                abs_i(u2 as int) <= COORD_CAP,
                0 <= ratio <= 1_000_000_000_000i128,
                0 <= e <= SCALE,
                SCALE == 1000i64,
                COORD_CAP == 10_000_000_000i64,
        ;
        lemma_div_t_bound((SCALE - e) as int * u1 as int, 2 * SCALE as int, 10_000_000_000_000int);
        lemma_div_t_bound((SCALE + e) as int * u1 as int, 2 * SCALE as int, 10_000_000_000_000int);
        lemma_div_t_bound((ratio + e) as int * u2 as int, 2 * SCALE as int,
            10_000_000_000_000_000_000int);
        lemma_div_t_bound((ratio - e) as int * u2 as int, 2 * SCALE as int,
            10_000_000_000_000_000_000int);
    }
    (clamp128(keep1 + pass1, COORD_CAP), clamp128(keep2 + pass2, COORD_CAP))
}

/// The collision response for a touching pair: the 1D elastic-collision
/// formula applied independently to each axis.
pub fn collide(u1: Vec2, u2: Vec2, m1: i64, m2: i64, e: i64) -> (r: (Vec2, Vec2))
    requires
        vec_bounded(u1, COORD_CAP as int),
        vec_bounded(u2, COORD_CAP as int),
        0 < m1 <= MASS_CAP,
        0 < m2 <= MASS_CAP,
        0 <= e <= SCALE,
    ensures
        r == collide_spec(u1, u2, m1 as int, m2 as int, e as int),
        vec_bounded(r.0, COORD_CAP as int),
        vec_bounded(r.1, COORD_CAP as int),
{
    let ratio: i128 = mul_div_t(m2 as i128, SCALE as i128, m1 as i128);
    proof {
        assert(abs_i(m2 as int * SCALE as int) <= 1_000_000_000_000int * m1 as int)
            by (nonlinear_arith)
            requires
                0 < m1,
                0 < m2 <= MASS_CAP,
                MASS_CAP == 1_000_000_000i64,
                SCALE == 1000i64,
        ;
        lemma_div_t_bound(m2 as int * SCALE as int, m1 as int, 1_000_000_000_000int);
        vstd::arithmetic::div_mod::lemma_div_pos_is_pos(m2 as int * SCALE as int, m1 as int);
        assert(m2 as int * SCALE as int >= 0) by (nonlinear_arith)
            requires
                m2 > 0,
        ;
    }
    let x = collide_axis_exec(u1.x, u2.x, ratio, e);
    let y = collide_axis_exec(u1.y, u2.y, ratio, e);
    (Vec2 { x: x.0, y: y.0 }, Vec2 { x: x.1, y: y.1 })
}

/// A color channel from a nonnegative numerator and positive denominator.
fn channel_exec(num: u128, den: u128) -> (r: u8)
    requires
        den > 0,
        num <= 0x1_0000_0000_0000_0000_0000_0000u128,
    ensures
        r as int == channel_s(num as int, den as int),
{
    let q: u128 = (256 * num) / den;
    if q > 255 {
        255
    } else {
        q as u8
    }
}

/// The squared magnitude of a bounded vector, as an unsigned wide value.
fn speed_sq_exec(v: Vec2) -> (r: u128)
    requires
        vec_bounded(v, COORD_CAP as int),
    ensures
        r as int == speed_sq(v),
{
    let x: i128 = v.x as i128;
    let y: i128 = v.y as i128;
    proof {
        assert(x * x >= 0 && x * x <= COORD_CAP * COORD_CAP && y * y >= 0 && y * y <= COORD_CAP
            * COORD_CAP) by (nonlinear_arith)
            requires
                abs_i(x as int) <= COORD_CAP,
                abs_i(y as int) <= COORD_CAP,
        ;
    }
    (x * x) as u128 + (y * y) as u128
}

/// Executable form of `collision_color_spec`.
pub fn collision_color(v1: Vec2, v2: Vec2) -> (r: Option<Rgb>)
    requires
        vec_bounded(v1, COORD_CAP as int),
        vec_bounded(v2, COORD_CAP as int),
    ensures
        r == collision_color_spec(v1, v2),
{
    let s1 = speed_sq_exec(v1);
    let s2 = speed_sq_exec(v2);
    if s1 == 0 || s2 == 0 {
        return None;
    }
    let m1: u64 = isqrt_u128(s1);
    let m2: u64 = isqrt_u128(s2);
    proof {
        assert(s1 as int <= 2 * (COORD_CAP * COORD_CAP) && s2 as int <= 2 * (COORD_CAP
            * COORD_CAP)) by (nonlinear_arith)
            requires
                s1 as int == v1.x as int * v1.x as int + v1.y as int * v1.y as int,
                s2 as int == v2.x as int * v2.x as int + v2.y as int * v2.y as int,
                abs_i(v1.x as int) <= COORD_CAP,
                abs_i(v1.y as int) <= COORD_CAP,
                abs_i(v2.x as int) <= COORD_CAP,
                abs_i(v2.y as int) <= COORD_CAP,
        ;
        assert(m1 >= 1 && m2 >= 1) by (nonlinear_arith)
            requires
                (m1 as int + 1) * (m1 as int + 1) > s1 as int,
                (m2 as int + 1) * (m2 as int + 1) > s2 as int,
                s1 >= 1,
                s2 >= 1,
                m1 >= 0,
                m2 >= 0,
        ;
        assert(m1 as int * m1 as int >= 1 && m2 as int * m2 as int >= 1 && m2 as int * m1 as int
            >= 1 && m1 as int * m1 as int <= s1 as int && m2 as int * m2 as int <= s2 as int)
            by (nonlinear_arith)
            requires
                m1 >= 1,
                m2 >= 1,
                (m1 as int) * (m1 as int) <= s1 as int,
                (m2 as int) * (m2 as int) <= s2 as int,
        ;
        assert(m1 < 0x8_0000_0000u64 && m2 < 0x8_0000_0000u64) by (nonlinear_arith)
            requires
                (m1 as int) * (m1 as int) <= s1 as int,
                (m2 as int) * (m2 as int) <= s2 as int,
                s1 as int <= 2 * (COORD_CAP * COORD_CAP),
                s2 as int <= 2 * (COORD_CAP * COORD_CAP),
                COORD_CAP == 10_000_000_000i64,
        ;
        assert((m1 as int) * (m1 as int) <= 0x8_0000_0000 * 0x8_0000_0000 && (m2 as int) * (
        m2 as int) <= 0x8_0000_0000 * 0x8_0000_0000 && (m2 as int) * (m1 as int) <= 0x8_0000_0000
            * 0x8_0000_0000) by (nonlinear_arith)
            requires
                0 <= m1 < 0x8_0000_0000u64,
                0 <= m2 < 0x8_0000_0000u64,
        ;
    }
    let ax1 = abs64(v1.x) as u128;
    let ay1 = abs64(v1.y) as u128;
    let ax2 = abs64(v2.x) as u128;
    let ay2 = abs64(v2.y) as u128;
    proof {
        assert(ax1 * ay1 <= COORD_CAP * COORD_CAP && ax2 * ay2 <= COORD_CAP * COORD_CAP && ay2
            * ax1 <= COORD_CAP * COORD_CAP) by (nonlinear_arith)
            requires
                0 <= ax1 <= COORD_CAP,
                0 <= ay1 <= COORD_CAP,
                0 <= ax2 <= COORD_CAP,
                0 <= ay2 <= COORD_CAP,
        ;
    }
    Some(
        Rgb {
            r: channel_exec(ax1 * ay1, (m1 as u128) * (m1 as u128)),
            g: channel_exec(ax2 * ay2, (m2 as u128) * (m2 as u128)),
            b: channel_exec(ay2 * ax1, (m2 as u128) * (m1 as u128)),
        },
    )
}

/// Collision symmetry for equal masses: swapping the two partners swaps the
/// outgoing velocities. (With unequal masses the swapped ratio `m1 / m2`
/// does not reproduce the swapped result; the formula is asymmetric there.)
pub proof fn lemma_collision_symmetry(u1: Vec2, u2: Vec2, m: int, e: int)
    requires
        0 < m,
    ensures
        collide_spec(u1, u2, m, m, e).0 == collide_spec(u2, u1, m, m, e).1,
        collide_spec(u1, u2, m, m, e).1 == collide_spec(u2, u1, m, m, e).0,
{
    assert(m * SCALE as int == SCALE as int * m) by (nonlinear_arith);
    vstd::arithmetic::div_mod::lemma_div_multiples_vanish(SCALE as int, m);
    assert(mass_ratio(m, m) == SCALE as int);
}

} // verus!
