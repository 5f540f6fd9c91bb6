use vstd::prelude::*;
use crate::geom::abs_v;
use crate::geom::COORD_LIMIT;
use vstd::arithmetic::div_mod::lemma_div_pos_is_pos;
use vstd::arithmetic::div_mod::lemma_div_is_ordered;
use vstd::arithmetic::div_mod::lemma_div_is_ordered_by_denominator;
use vstd::arithmetic::div_mod::lemma_div_multiples_vanish;
use vstd::arithmetic::div_mod::lemma_div_basics;
use vstd::arithmetic::div_mod::lemma_fundamental_div_mod;
use vstd::arithmetic::div_mod::lemma_mod_bound;

verus! {

/// Milliradians in a full turn (2 pi scaled by 1000, rounded).
pub const TWO_PI_MRAD: i64 = 6284;

/// Milliradians in a half turn.
pub const PI_MRAD: i64 = 3142;

/// Milliradians in a quarter turn.
pub const HALF_PI_MRAD: i64 = 1571;

/// Truncating division of a nonnegative value by a positive one; agrees
/// with mathematical (floor) division on this domain.
pub fn div_u(a: i64, b: i64) -> (r: i64)
    requires
        0 <= a,
        0 < b,
    ensures
        r == a as int / b as int,
        0 <= r <= a,
{
    proof {
        lemma_div_pos_is_pos(a as int, b as int);
        lemma_div_is_ordered_by_denominator(a as int, 1, b as int);
        lemma_div_basics(a as int);
    }
    ((a as u64) / (b as u64)) as i64
}

/// The quotient of nonnegative `a` by positive `b` is at most `c` whenever
/// `a <= c * b`.
pub proof fn lemma_div_at_most(a: int, b: int, c: int)
    requires
        0 <= a,
        0 < b,
        0 <= c,
        a <= c * b,
    ensures
        a / b <= c,
{
    lemma_div_is_ordered(a, c * b, b);
    assert(c * b == b * c) by (nonlinear_arith);
    lemma_div_multiples_vanish(c, b);
}

/// `b * (a / b) <= a` for nonnegative `a` and positive `b`.
pub proof fn lemma_div_times_den(a: int, b: int)
    requires
        0 <= a,
        0 < b,
    ensures
        b * (a / b) <= a,
{
    lemma_fundamental_div_mod(a, b);
    lemma_mod_bound(a, b);
}

/// The floor of the square root of a nonnegative integer.
pub open spec fn isqrt_s(n: int) -> int {
    choose|r: int| r >= 0 && #[trigger] (r * r) <= n && (r + 1) * (r + 1) > n
}

proof fn lemma_isqrt_unique(n: int, a: int, b: int)
    requires
        a >= 0,
        a * a <= n,
        (a + 1) * (a + 1) > n,
        b >= 0,
        b * b <= n,
        (b + 1) * (b + 1) > n,
    ensures
        a == b,
{
    if a < b {
        assert((a + 1) * (a + 1) <= b * b) by (nonlinear_arith)
            requires
                a >= 0,
                b >= 0,
                a < b,
        ;
    }
    if b < a {
        assert((b + 1) * (b + 1) <= a * a) by (nonlinear_arith)
            requires
                a >= 0,
                b >= 0,
                b < a,
        ;
    }
}

/// Floor of the square root, by binary search on the result.
pub fn isqrt(n: u128) -> (r: u64)
    requires
        n < 0x1000000000000000000000u128,  // 2^84
    ensures
        r < 0x40000000000u64,  // 2^42
        (r as int) * (r as int) <= n as int,
        (r as int + 1) * (r as int + 1) > n as int,
        r as int == isqrt_s(n as int),
{
    let mut lo: u64 = 0;
    let mut hi: u64 = 0x40000000000;
    while hi - lo > 1
        invariant
            lo < hi,
            hi <= 0x40000000000,
            (lo as int) * (lo as int) <= n as int,
            (hi as int) * (hi as int) > n as int,
        decreases hi - lo,
    {
        let mid: u64 = lo + (hi - lo) / 2;
        proof {
            assert(mid as int * mid as int <= 0x40000000000 * 0x40000000000) by (nonlinear_arith)
                requires
                    0 <= mid as int <= 0x40000000000,
            ;
        }
        if (mid as u128) * (mid as u128) <= n {
            lo = mid;
        } else {
            hi = mid;
        }
    }
    proof {
        assert(hi == lo + 1);
        assert(exists|q: int|
            q >= 0 && #[trigger] (q * q) <= n as int && (q + 1) * (q + 1) > n as int) by {
            assert(lo as int >= 0 && (lo as int) * (lo as int) <= n as int && (lo as int + 1) * (
            lo as int + 1) > n as int);
        }
        lemma_isqrt_unique(n as int, lo as int, isqrt_s(n as int));
    }
    lo
}

/// atan of `z / 1000` in milliradians, for `z` in `[0, 1000]`, by the
/// quadratic approximation atan(z) ~ z * (pi/4 + 0.273 * (1 - z)).
pub open spec fn atan_unit_s(z: int) -> int {
    (z * 785) / 1000 + (z * (1000 - z) * 273) / 1000000
}

pub proof fn lemma_atan_unit_bounds(z: int)
    requires
        0 <= z <= 1000,
    ensures
        0 <= atan_unit_s(z) <= 785,
{
    let a1 = (z * 785) / 1000;
    let a2 = (z * (1000 - z) * 273) / 1000000;
    assert(z * 785 >= 0) by (nonlinear_arith)
        requires
            z >= 0,
    ;
    assert(z * (1000 - z) * 273 >= 0) by (nonlinear_arith)
        requires
            0 <= z <= 1000,
    ;
    lemma_div_pos_is_pos(z * 785, 1000);
    lemma_div_pos_is_pos(z * (1000 - z) * 273, 1000000);
    lemma_div_times_den(z * 785, 1000);
    lemma_div_times_den(z * (1000 - z) * 273, 1000000);
    assert(785000 * z + 273 * (z * (1000 - z)) <= 785000000) by (nonlinear_arith)
        requires
            0 <= z <= 1000,
    ;
    assert(1000000 * a1 + 1000000 * a2 <= 785000000);
    assert(a1 + a2 <= 785);
}

pub fn atan_unit(z: i64) -> (r: i64)
    requires
        0 <= z <= 1000,
    ensures
        r == atan_unit_s(z as int),
        0 <= r <= 785,
{
    proof {
        lemma_atan_unit_bounds(z as int);
    }
    let t1: i64 = div_u(z * 785, 1000);
    let t2: i64 = div_u(z * (1000 - z) * 273, 1000000);
    t1 + t2
}

/// Two-argument arctangent in milliradians, in `[-3142, 3142]`.
pub open spec fn atan2_mrad_s(y: int, x: int) -> int {
    let ax = abs_v(x);
    let ay = abs_v(y);
    if ax == 0 && ay == 0 {
        0
    } else {
        let base = if ay <= ax {
            atan_unit_s((ay * 1000) / ax)
        } else {
            1571 - atan_unit_s((ax * 1000) / ay)
        };
        let rot = if x < 0 {
            3142 - base
        } else {
            base
        };
        if y < 0 {
            -rot
        } else {
            rot
        }
    }
}

pub fn atan2_mrad(y: i64, x: i64) -> (r: i64)
    requires
        abs_v(y as int) <= COORD_LIMIT,
        abs_v(x as int) <= COORD_LIMIT,
    ensures
        r == atan2_mrad_s(y as int, x as int),
        -3142 <= r <= 3142,
{
    let ax: i64 = if x < 0 {
        -x
    } else {
        x
    };
    let ay: i64 = if y < 0 {
        -y
    } else {
        y
    };
    if ax == 0 && ay == 0 {
        return 0;
    }
    let base: i64 = if ay <= ax {
        proof {
            lemma_div_at_most(ay as int * 1000, ax as int, 1000);
            assert(ay as int * 1000 <= 1000 * ax as int) by (nonlinear_arith)
                requires
                    ay <= ax,
            ;
        }
        atan_unit(div_u(ay * 1000, ax))
    } else {
        proof {
            lemma_div_at_most(ax as int * 1000, ay as int, 1000);
            assert(ax as int * 1000 <= 1000 * ay as int) by (nonlinear_arith)
                requires
                    ax <= ay,
            ;
        }
        1571 - atan_unit(div_u(ax * 1000, ay))
    };
    let rot: i64 = if x < 0 {
        3142 - base
    } else {
        base
    };
    if y < 0 {
        -rot
    } else {
        rot
    }
}

/// sin of `x` milliradians, scaled by 1000, for `x` in `[0, 3142]` (the
/// first half period), by the Bhaskara approximation
/// 16 x (pi - x) / (5 pi^2 - 4 x (pi - x)).
pub open spec fn sin_half_s(x: int) -> int {
    let t = x * (3142 - x);
    (16000 * t) / (49365620 - 4 * t)
}

pub proof fn lemma_sin_half_bounds(x: int)
    requires
        0 <= x <= 3142,
    ensures
        0 <= sin_half_s(x) <= 1000,
{
    assert(x * (3142 - x) >= 0) by (nonlinear_arith)
        requires
            0 <= x <= 3142,
    ;
    assert(x * (3142 - x) <= 2468041) by (nonlinear_arith)
        requires
            0 <= x <= 3142,
    ;
    let t = x * (3142 - x);
    let den = 49365620 - 4 * t;
    lemma_div_pos_is_pos(16000 * t, den);
    assert(16000 * t <= 1000 * den);
    lemma_div_at_most(16000 * t, den, 1000);
}

pub fn sin_half(x: i64) -> (r: i64)
    requires
        0 <= x <= 3142,
    ensures
        r == sin_half_s(x as int),
        0 <= r <= 1000,
{
    proof {
        lemma_sin_half_bounds(x as int);
        assert(x as int * (3142 - x as int) >= 0) by (nonlinear_arith)
            requires
                0 <= x <= 3142,
        ;
        assert(x as int * (3142 - x as int) <= 2468041) by (nonlinear_arith)
            requires
                0 <= x <= 3142,
        ;
    }
    let t: i64 = x * (3142 - x);
    div_u(16000 * t, 49365620 - 4 * t)
}

/// sin of `a` milliradians, scaled by 1000, for `a` in `(-6284, 6284)`.
pub open spec fn sin_mrad_s(a: int) -> int {
    let b = if a < 0 {
        a + 6284
    } else {
        a
    };
    if b <= 3142 {
        sin_half_s(b)
    } else {
        -sin_half_s(b - 3142)
    }
}

pub fn sin_mrad(a: i64) -> (r: i64)
    requires
        -6284 < a < 6284,
    ensures
        r == sin_mrad_s(a as int),
        -1000 <= r <= 1000,
{
    let b: i64 = if a < 0 {
        a + 6284
    } else {
        a
    };
    if b <= 3142 {
        sin_half(b)
    } else {
        -sin_half(b - 3142)
    }
}

/// cos of `a` milliradians, scaled by 1000, as sin shifted a quarter turn.
pub open spec fn cos_mrad_s(a: int) -> int {
    let c = a + 1571;
    let c2 = if c >= 6284 {
        c - 6284
    } else {
        c
    };
    sin_mrad_s(c2)
}

pub fn cos_mrad(a: i64) -> (r: i64)
    requires
        -6284 < a < 6284,
    ensures
        r == cos_mrad_s(a as int),
        -1000 <= r <= 1000,
{
    let c: i64 = a + 1571;
    let c2: i64 = if c >= 6284 {
        c - 6284
    } else {
        c
    };
    sin_mrad(c2)
}

/// Brings an angle that is at most one turn outside `(-6284, 6284)` back
/// into that range.
pub open spec fn wrap_angle_s(a: int) -> int {
    if a >= 6284 {
        a - 6284
    } else if a <= -6284 {
        a + 6284
    } else {
        a
    }
}

pub fn wrap_angle(a: i64) -> (r: i64)
    requires
        -12568 < a < 12568,
    ensures
        r == wrap_angle_s(a as int),
        -6284 < r < 6284,
{
    if a >= 6284 {
        a - 6284
    } else if a <= -6284 {
        a + 6284
    } else {
        a
    }
}

} // verus!
