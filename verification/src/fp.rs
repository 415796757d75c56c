use vstd::prelude::*;

verus! {

/// Fixed-point sub-units per pixel (and per second, for time deltas).
pub const SCALE: i64 = 1000;

/// Largest magnitude a stored position or velocity component may reach.
/// Updates that would exceed it saturate, so components always fit in `i64`.
pub const COORD_CAP: i64 = 10_000_000_000;

/// Magnitude of an integer.
pub open spec fn abs_i(a: int) -> int {
    if a >= 0 {
        a
    } else {
        -a
    }
}

/// Truncating (round-toward-zero) division for a positive divisor,
/// the semantics of hardware integer division.
pub open spec fn div_t(n: int, d: int) -> int {
    if n >= 0 {
        n / d
    } else {
        -((-n) / d)
    }
}

/// Saturation of `v` to the interval `[-cap, cap]`.
pub open spec fn clamp_s(v: int, cap: int) -> int {
    if v > cap {
        cap
    } else if v < -cap {
        -cap
    } else {
        v
    }
}

/// Magnitude of an `i64` as a `u64`.
pub fn abs64(a: i64) -> (r: u64)
    ensures
        r as int == abs_i(a as int),
{
    if a >= 0 {
        a as u64
    } else if a == i64::MIN {
        9_223_372_036_854_775_808u64
    } else {
        (-a) as u64
    }
}

/// Truncated quotient `a * b / d` computed without overflow.
pub fn mul_div_t(a: i128, b: i128, d: i128) -> (r: i128)
    requires
        d > 0,
        abs_i(a as int) <= 0x10_0000_0000_0000_0000_0000,
        abs_i(b as int) <= 0x400_0000_0000,
    ensures
        r as int == div_t(a as int * b as int, d as int),
{
    let ma: u128 = if a >= 0 {
        a as u128
    } else {
        (-a) as u128
    };
    let mb: u128 = if b >= 0 {
        b as u128
    } else {
        (-b) as u128
    };
    let md: u128 = d as u128;
    proof {
        assert(ma as int == abs_i(a as int));
        assert(mb as int == abs_i(b as int));
        assert(ma as int * mb as int <= 0x10_0000_0000_0000_0000_0000 * 0x400_0000_0000)
            by (nonlinear_arith)
            requires
                ma as int <= 0x10_0000_0000_0000_0000_0000,
                mb as int <= 0x400_0000_0000,
                ma >= 0,
                mb >= 0,
        ;
    }
    let q: u128 = (ma * mb) / md;
    proof {
        lemma_abs_mul(a as int, b as int);
        assert(q as int == abs_i(a as int * b as int) / d as int);
    }
    if (a < 0) != (b < 0) {
        proof {
            assert(a as int * b as int <= 0) by (nonlinear_arith)
                requires
                    (a < 0 && b >= 0) || (a >= 0 && b < 0),
            ;
            lemma_div_t_neg(a as int * b as int, d as int);
        }
        -(q as i128)
    } else {
        proof {
            assert(a as int * b as int >= 0) by (nonlinear_arith)
                requires
                    (a < 0 && b < 0) || (a >= 0 && b >= 0),
            ;
        }
        q as i128
    }
}

/// The magnitude of a product is the product of the magnitudes.
proof fn lemma_abs_mul(a: int, b: int)
    ensures
        abs_i(a * b) == abs_i(a) * abs_i(b),
{
    assert(abs_i(a * b) == abs_i(a) * abs_i(b)) by (nonlinear_arith);
}

/// For nonpositive `n`, truncated division negates the quotient of the magnitude.
proof fn lemma_div_t_neg(n: int, d: int)
    requires
        n <= 0,
        d > 0,
    ensures
        div_t(n, d) == -(abs_i(n) / d),
{
}

/// Truncated quotient `a * b * c / d` for three bounded factors.
pub fn mul3_div_t(a: i128, b: i128, c: i128, d: i128) -> (r: i128)
    requires
        d > 0,
        abs_i(a as int) <= 0x400_0000_0000,
        abs_i(b as int) <= 0x400_0000_0000,
        abs_i(c as int) <= 0x400_0000_0000,
    ensures
        r as int == div_t(a as int * b as int * c as int, d as int),
{
    proof {
        assert(abs_i(a as int * b as int) == abs_i(a as int) * abs_i(b as int) && abs_i(
            a as int,
        ) * abs_i(b as int) <= 0x400_0000_0000 * 0x400_0000_0000) by (nonlinear_arith)
            requires
                abs_i(a as int) <= 0x400_0000_0000,
                abs_i(b as int) <= 0x400_0000_0000,
        ;
    }
    let ab: i128 = a * b;
    mul_div_t(ab, c, d)
}

/// Whether `r` is the floor of the square root of `n`.
pub open spec fn is_sqrt_floor(n: int, r: int) -> bool {
    0 <= r && r * r <= n && n < (r + 1) * (r + 1)
}

/// The floor of the square root of a nonnegative integer.
pub open spec fn sqrt_floor(n: int) -> int {
    choose|r: int| is_sqrt_floor(n, r)
}

/// Any witness of `is_sqrt_floor` is the value of `sqrt_floor`.
pub proof fn lemma_sqrt_floor_is(n: int, r: int)
    requires
        is_sqrt_floor(n, r),
    ensures
        sqrt_floor(n) == r,
{
    assert(is_sqrt_floor(n, sqrt_floor(n)));
    let s = sqrt_floor(n);
    assert(s == r) by (nonlinear_arith)
        requires
            is_sqrt_floor(n, r),
            is_sqrt_floor(n, s),
    ;
}

/// Floor of the square root, by bisection.
pub fn isqrt_u128(n: u128) -> (r: u64)
    ensures
        r as int == sqrt_floor(n as int),
        is_sqrt_floor(n as int, r as int),
{
    if n == 0 {
        proof {
            lemma_sqrt_floor_is(0, 0);
        }
        return 0;
    }
    let mut lo: u128 = 0;
    let mut hi: u128 = 0x1_0000_0000_0000_0000;
    proof {
        assert((hi as int) * (hi as int) > n as int) by (nonlinear_arith)
            requires
                hi == 0x1_0000_0000_0000_0000u128,
                n <= u128::MAX,
        ;
    }
    while lo + 1 < hi
        invariant
            lo < hi,
            hi <= 0x1_0000_0000_0000_0000u128,
            (lo as int) * (lo as int) <= n as int,
            (hi as int) * (hi as int) > n as int,
        decreases hi - lo,
    {
        let mid: u128 = lo + (hi - lo) / 2;
        proof {
            assert(lo < mid < hi);
            assert((mid as int) * (mid as int) < 0x1_0000_0000_0000_0000_0000_0000_0000_0000)
                by (nonlinear_arith)
                requires
                    mid < 0x1_0000_0000_0000_0000u128,
            ;
        }
        if mid * mid <= n {
            lo = mid;
        } else {
            hi = mid;
        }
    }
    proof {
        assert(hi == lo + 1);
        assert(is_sqrt_floor(n as int, lo as int));
        lemma_sqrt_floor_is(n as int, lo as int);
        assert((lo as int) * (lo as int) <= n as int);
        assert(lo < 0x1_0000_0000_0000_0000u128);
    }
    lo as u64
}

/// Truncated division by a positive divisor never grows a magnitude bound.
pub proof fn lemma_div_t_bound(n: int, d: int, bound: int)
    requires
        d > 0,
        0 <= bound,
        abs_i(n) <= bound * d,
    ensures
        abs_i(div_t(n, d)) <= bound,
{
    vstd::arithmetic::div_mod::lemma_div_pos_is_pos(abs_i(n), d);
    assert(abs_i(div_t(n, d)) == abs_i(n) / d);
    assert(bound * d == d * bound) by (nonlinear_arith);
    vstd::arithmetic::div_mod::lemma_div_is_ordered(abs_i(n), d * bound, d);
    vstd::arithmetic::div_mod::lemma_div_multiples_vanish(bound, d);
    assert(abs_i(n) / d <= (d * bound) / d);
}

/// Saturate a wide intermediate value to `[-cap, cap]`.
pub fn clamp128(v: i128, cap: i64) -> (r: i64)
    requires
        cap > 0,
    ensures
        r as int == clamp_s(v as int, cap as int),
{
    if v > cap as i128 {
        cap
    } else if v < -(cap as i128) {
        -cap
    } else {
        v as i64
    }
}

} // verus!
