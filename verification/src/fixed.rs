//! Fixed-point scalar arithmetic: scaling, the fade curve, linear
//! interpolation and angle trigonometry, the numeric kernel of the
//! noise engine.
//!
//! A real number `r` is represented by the integer `r * SCALE`, and every
//! operation here truncates toward zero, so results are exact functions of
//! their inputs.

use vstd::prelude::*;

verus! {

/// One unit in fixed-point representation: the real number 1.0.
pub const SCALE: i64 = 65536;

/// A full turn, `2 * pi`, in fixed-point representation.
pub const TAU_FP: i64 = 411775;

/// Half a turn, `pi`, in fixed-point representation.
pub const PI_FP: i64 = 205887;

/// A quarter turn, `pi / 2`, in fixed-point representation.
pub const HALF_PI_FP: i64 = 102944;

/// `pi * pi` in fixed-point representation, rounded up slightly so that
/// `4 * (x * (PI_FP - x) / SCALE) <= PI_SQ_FP` holds for `0 <= x <= PI_FP`.
pub const PI_SQ_FP: i64 = 646817;

/// Largest product magnitude `sdiv` accepts; comfortably below `i64::MAX`.
pub const SDIV_MAX: i64 = 0x4000_0000_0000_0000;

/// Largest magnitude `lerp` accepts for its interpolands.
pub const VAL_MAX: i64 = 131072000000;

/// Truncating division of a fixed-point product by `SCALE` (rounds toward zero).
pub open spec fn sdiv_spec(v: int) -> int {
    if v >= 0 {
        v / (SCALE as int)
    } else {
        -((-v) / (SCALE as int))
    }
}

/// Scale a product of two fixed-point values back down by `SCALE`,
/// truncating toward zero.
pub fn sdiv(v: i64) -> (r: i64)
    requires
        -SDIV_MAX <= v <= SDIV_MAX,
    ensures
        r == sdiv_spec(v as int),
{
    if v >= 0 {
        ((v as u64) / (SCALE as u64)) as i64
    } else {
        -(((-v) as u64 / (SCALE as u64)) as i64)
    }
}

/// The magnitude of a truncating scale-down never exceeds the bound
/// obtained by scaling down the input's magnitude bound.
pub proof fn lemma_sdiv_bound(v: int, b: int)
    requires
        b >= 0,
        -b * SCALE <= v <= b * SCALE,
    ensures
        -b <= sdiv_spec(v) <= b,
{
    if v >= 0 {
        vstd::arithmetic::div_mod::lemma_div_is_ordered(v, b * (SCALE as int), SCALE as int);
        vstd::arithmetic::div_mod::lemma_div_by_multiple(b, SCALE as int);
        vstd::arithmetic::div_mod::lemma_div_is_ordered(0, v, SCALE as int);
    } else {
        vstd::arithmetic::div_mod::lemma_div_is_ordered(-v, b * (SCALE as int), SCALE as int);
        vstd::arithmetic::div_mod::lemma_div_by_multiple(b, SCALE as int);
        vstd::arithmetic::div_mod::lemma_div_is_ordered(0, -v, SCALE as int);
    }
}

/// Scaling down an exact multiple of `SCALE` recovers the factor.
pub proof fn lemma_sdiv_exact(b: int)
    ensures
        sdiv_spec(b * SCALE) == b,
{
    if b >= 0 {
        vstd::arithmetic::div_mod::lemma_div_by_multiple(b, SCALE as int);
    } else {
        vstd::arithmetic::div_mod::lemma_div_by_multiple(-b, SCALE as int);
        assert(-(b * (SCALE as int)) == (-b) * (SCALE as int)) by (nonlinear_arith);
    }
}

/// The fade curve `6t^5 - 15t^4 + 10t^3` evaluated in fixed point for
/// `t` in `[0, SCALE]`; smooths fractional offsets so that blended noise
/// has no seams at lattice cell boundaries.
pub open spec fn fade_spec(t: int) -> int {
    let t2 = sdiv_spec(t * t);
    let t3 = sdiv_spec(t2 * t);
    let inner = 10 * SCALE - sdiv_spec((15 * SCALE - 6 * t) * t);
    sdiv_spec(t3 * inner)
}

/// The fade polynomial's quadratic factor `6t^2 - 15t*S + 10S^2` is
/// positive everywhere (its discriminant is negative).
proof fn lemma_fade_inner_positive(t: int)
    requires
        0 <= t <= SCALE,
    ensures
        (15 * SCALE - 6 * t) * t <= 9 * SCALE * SCALE,
{
    assert((15 * SCALE - 6 * t) * t <= 9 * SCALE * SCALE) by (nonlinear_arith)
        requires
            0 <= t <= SCALE,
    {
        assert(3 * (2 * t - 3 * SCALE) * (t - SCALE) >= 0);
    }
}

/// Evaluate the fade curve.
pub fn fade(t: i64) -> (r: i64)
    requires
        0 <= t <= SCALE,
    ensures
        r == fade_spec(t as int),
        0 <= r <= 10 * SCALE,
{
    proof {
        assert(t * t <= SCALE * SCALE) by (nonlinear_arith)
            requires
                0 <= t <= SCALE,
        ;
    }
    let t2: i64 = sdiv(t * t);
    proof {
        lemma_sdiv_bound(t as int * t as int, SCALE as int);
        assert(t2 * t <= SCALE * SCALE) by (nonlinear_arith)
            requires
                0 <= t2 <= SCALE,
                0 <= t <= SCALE,
        ;
        assert(t2 * t >= 0) by (nonlinear_arith)
            requires
                t2 >= 0,
                t >= 0,
        ;
    }
    let t3: i64 = sdiv(t2 * t);
    proof {
        lemma_sdiv_bound(t2 as int * t as int, SCALE as int);
        assert((15 * SCALE - 6 * t) * t <= 15 * SCALE * SCALE) by (nonlinear_arith)
            requires
                0 <= t <= SCALE,
        ;
        assert((15 * SCALE - 6 * t) * t >= 0) by (nonlinear_arith)
            requires
                0 <= t <= SCALE,
        ;
        lemma_fade_inner_positive(t as int);
        lemma_sdiv_bound((15 * SCALE - 6 * t) as int * t as int, 15 * SCALE as int);
        vstd::arithmetic::div_mod::lemma_div_is_ordered(
            (15 * SCALE - 6 * t) as int * t as int,
            9 * SCALE * SCALE as int,
            SCALE as int,
        );
        vstd::arithmetic::div_mod::lemma_div_by_multiple(9 * SCALE as int, SCALE as int);
    }
    let inner: i64 = 10 * SCALE - sdiv((15 * SCALE - 6 * t) * t);
    proof {
        assert(t3 * inner <= SCALE * (10 * SCALE)) by (nonlinear_arith)
            requires
                0 <= t3 <= SCALE,
                0 <= inner <= 10 * SCALE,
        ;
        assert(t3 * inner >= 0) by (nonlinear_arith)
            requires
                t3 >= 0,
                inner >= 0,
        ;
        assert(SCALE * (10 * SCALE) == (10 * SCALE) * SCALE) by (nonlinear_arith);
        lemma_sdiv_bound(t3 as int * inner as int, 10 * SCALE as int);
    }
    sdiv(t3 * inner)
}

/// The fade curve is exact at the two cell boundaries: it vanishes at 0
/// and is the identity at a full unit.
pub proof fn lemma_fade_endpoints()
    ensures
        fade_spec(0) == 0,
        fade_spec(SCALE as int) == SCALE as int,
{
    vstd::arithmetic::div_mod::lemma_div_of0(SCALE as int);
    assert((15 * SCALE - 6 * 0) * 0 == 0) by (nonlinear_arith);
    assert(0 * (10 * SCALE - 0) == 0) by (nonlinear_arith);
    assert(fade_spec(0) == 0);
    let s = SCALE as int;
    assert(s * s == s * s);
    lemma_sdiv_exact(s);
    assert(sdiv_spec(s * s) == s);
    lemma_sdiv_exact(9 * s);
    assert((15 * s - 6 * s) * s == (9 * s) * s) by (nonlinear_arith);
    assert(sdiv_spec((15 * s - 6 * s) * s) == 9 * s);
    assert(fade_spec(s) == sdiv_spec(s * (10 * s - 9 * s)));
    assert(s * (10 * s - 9 * s) == s * s) by (nonlinear_arith);
    assert(fade_spec(s) == s);
}

/// Linear interpolation `a + t * (b - a)` with a fixed-point weight `t`.
pub open spec fn lerp_spec(a: int, b: int, t: int) -> int {
    a + sdiv_spec(t * (b - a))
}

/// Interpolate between `a` and `b` with fixed-point weight `t`.
pub fn lerp(a: i64, b: i64, t: i64) -> (r: i64)
    requires
        0 <= t <= 10 * SCALE,
        -VAL_MAX <= a <= VAL_MAX,
        -VAL_MAX <= b <= VAL_MAX,
    ensures
        r == lerp_spec(a as int, b as int, t as int),
        -21 * VAL_MAX <= r <= 21 * VAL_MAX,
{
    proof {
        lemma_lerp_product_bound(a as int, b as int, t as int, VAL_MAX as int);
        lemma_sdiv_bound(t as int * (b - a) as int, 20 * VAL_MAX as int);
    }
    let w: i64 = sdiv(t * (b - a));
    a + w
}

/// Bound on the weighted difference inside `lerp`.
proof fn lemma_lerp_product_bound(a: int, b: int, t: int, m: int)
    requires
        0 <= t <= 10 * SCALE,
        m >= 0,
        -m <= a <= m,
        -m <= b <= m,
    ensures
        -(20 * m) * SCALE <= t * (b - a) <= (20 * m) * SCALE,
{
    assert(t * (b - a) <= (20 * m) * SCALE && t * (b - a) >= -(20 * m) * SCALE)
        by (nonlinear_arith)
        requires
            0 <= t <= 10 * SCALE,
            m >= 0,
            -2 * m <= b - a <= 2 * m,
    ;
}

/// Interpolation magnitudes grow by at most a factor of 21 per blend level.
pub proof fn lemma_lerp_bound(a: int, b: int, t: int, m: int)
    requires
        0 <= t <= 10 * SCALE,
        m >= 0,
        -m <= a <= m,
        -m <= b <= m,
    ensures
        -21 * m <= lerp_spec(a, b, t) <= 21 * m,
{
    lemma_lerp_product_bound(a, b, t, m);
    lemma_sdiv_bound(t * (b - a), 20 * m);
}

/// A zero weight selects the first interpoland exactly.
pub proof fn lemma_lerp_zero(a: int, b: int)
    ensures
        lerp_spec(a, b, 0) == a,
{
    vstd::arithmetic::div_mod::lemma_div_of0(SCALE as int);
    assert(0 * (b - a) == 0) by (nonlinear_arith);
}

/// A full-unit weight selects the second interpoland exactly.
pub proof fn lemma_lerp_full(a: int, b: int)
    ensures
        lerp_spec(a, b, SCALE as int) == b,
{
    lemma_sdiv_exact(b - a);
    assert(SCALE as int * (b - a) == (b - a) * SCALE) by (nonlinear_arith);
}

/// Rational approximation of `sin` on the half turn `[0, PI_FP]`,
/// `16 x (pi - x) / (5 pi^2 - 4 x (pi - x))`, evaluated in fixed point.
pub open spec fn half_sin_spec(x: int) -> int {
    let p = (x * (PI_FP - x)) / (SCALE as int);
    (16 * p * SCALE) / (5 * PI_SQ_FP - 4 * p)
}

/// The chord product `x * (PI_FP - x)` stays within a quarter of `PI_FP`
/// squared, so the approximation's denominator stays positive.
proof fn lemma_half_sin_product_bound(x: int)
    requires
        0 <= x <= PI_FP,
    ensures
        0 <= x * (PI_FP - x),
        4 * (x * (PI_FP - x)) <= PI_FP * PI_FP,
{
    assert(0 <= x * (PI_FP - x) && 4 * (x * (PI_FP - x)) <= PI_FP * PI_FP)
        by (nonlinear_arith)
        requires
            0 <= x <= PI_FP,
    {
        assert((PI_FP - 2 * x) * (PI_FP - 2 * x) >= 0);
    }
}

/// Evaluate the half-turn sine approximation.
fn half_sin(x: i64) -> (r: i64)
    requires
        0 <= x <= PI_FP,
    ensures
        r == half_sin_spec(x as int),
        0 <= r <= SCALE,
{
    proof {
        lemma_half_sin_product_bound(x as int);
    }
    let prod: i64 = x * (PI_FP - x);
    let p: i64 = (prod as u64 / SCALE as u64) as i64;
    proof {
        let s = SCALE as int;
        vstd::arithmetic::div_mod::lemma_div_pos_is_pos(prod as int, s);
        // 4 * prod <= PI_FP^2 pins prod, hence p, below PI_SQ_FP / 4.
        assert(prod <= 161703 * s);
        vstd::arithmetic::div_mod::lemma_div_is_ordered(prod as int, 161703 * s, s);
        vstd::arithmetic::div_mod::lemma_div_by_multiple(161703, s);
        assert(4 * p <= 646812);
    }
    let denom: i64 = 5 * PI_SQ_FP - 4 * p;
    let num: i64 = 16 * p * SCALE;
    proof {
        // num <= denom * SCALE because 20 * p <= 5 * PI_SQ_FP
        assert(num <= denom * SCALE && denom >= 1) by (nonlinear_arith)
            requires
                num == 16 * p * SCALE,
                denom == 5 * PI_SQ_FP - 4 * p,
                0 <= p,
                4 * p <= 646812,
        ;
        vstd::arithmetic::div_mod::lemma_div_is_ordered(num as int, denom * SCALE as int, denom as int);
        vstd::arithmetic::div_mod::lemma_div_by_multiple(SCALE as int, denom as int);
        vstd::arithmetic::div_mod::lemma_div_pos_is_pos(num as int, denom as int);
    }
    (num as u64 / denom as u64) as i64
}

/// Fixed-point sine of an angle in `[0, TAU_FP)`.
pub open spec fn sin_spec(a: int) -> int {
    if a <= PI_FP {
        half_sin_spec(a)
    } else {
        -half_sin_spec(a - PI_FP)
    }
}

/// Fixed-point cosine of an angle in `[0, TAU_FP)`, as the sine of the
/// angle advanced by a quarter turn.
pub open spec fn cos_spec(a: int) -> int {
    if a + HALF_PI_FP < TAU_FP {
        sin_spec(a + HALF_PI_FP)
    } else {
        sin_spec(a + HALF_PI_FP - TAU_FP)
    }
}

/// Fixed-point sine; the result never leaves `[-SCALE, SCALE]`.
pub fn sin_fp(a: i64) -> (r: i64)
    requires
        0 <= a < TAU_FP,
    ensures
        r == sin_spec(a as int),
        -SCALE <= r <= SCALE,
{
    if a <= PI_FP {
        half_sin(a)
    } else {
        -half_sin(a - PI_FP)
    }
}

/// Fixed-point cosine; the result never leaves `[-SCALE, SCALE]`.
pub fn cos_fp(a: i64) -> (r: i64)
    requires
        0 <= a < TAU_FP,
    ensures
        r == cos_spec(a as int),
        -SCALE <= r <= SCALE,
{
    let b: i64 = a + HALF_PI_FP;
    if b < TAU_FP {
        sin_fp(b)
    } else {
        sin_fp(b - TAU_FP)
    }
}

} // verus!
