//! Fixed-point scalar arithmetic.
//!
//! Geometry is carried in signed 64-bit "micro-units": one unit of drawing
//! space is `SCALE` micro-units. All products are computed in 128 bits and
//! divisions truncate toward zero, which the specifications state exactly.
use vstd::prelude::*;

verus! {

/// Micro-units per user unit (or per millimeter, for physical quantities).
pub const SCALE: i64 = 1_000_000;

/// Truncating (round-toward-zero) integer division, the semantics of the
/// executable division on magnitudes used throughout this crate.
pub open spec fn div_t(a: int, b: int) -> int {
    if a >= 0 {
        a / b
    } else {
        -((-a) / b)
    }
}

/// Product of `a` and `b` scaled back down: the fixed-point multiplication.
pub open spec fn smul(a: int, b: int) -> int {
    div_t(a * b, SCALE as int)
}

/// Quotient of `a` by `b` scaled up: the fixed-point division.
pub open spec fn sdiv(a: int, b: int) -> int {
    div_t(a * (SCALE as int), b)
}

/// Absolute value.
pub open spec fn sabs(a: int) -> int {
    if a >= 0 {
        a
    } else {
        -a
    }
}

/// Magnitude of an `i64` as a `u128`.
pub fn abs_u128(a: i64) -> (r: u128)
    ensures
        r == sabs(a as int),
{
    if a >= 0 {
        a as u128
    } else if a == i64::MIN {
        9_223_372_036_854_775_808u128
    } else {
        (-a) as u128
    }
}

/// Truncating division of two 128-bit magnitudes with a sign reapplied,
/// clamped into `i64`. The clamp is a safety net: callers that stay within
/// the documented coordinate bounds never reach it.
pub fn mul_div_i64(a: i64, b: i64, d: i64) -> (r: i64)
    requires
        d > 0,
    ensures
        r as int == clamp_i64(div_t(a as int * b as int, d as int)),
{
    let ma = abs_u128(a);
    let mb = abs_u128(b);
    let md = d as u128;
    proof {
        assert(ma * mb <= 0x8000000000000000u128 * 0x8000000000000000u128) by (nonlinear_arith)
            requires
                ma <= 0x8000000000000000u128 && mb <= 0x8000000000000000u128,
        ;
    }
    let q: u128 = (ma * mb) / md;
    let neg = (a < 0) != (b < 0);
    proof {
        lemma_abs_mul(a as int, b as int);
        lemma_div_t_mag(a as int * b as int, d as int);
    }
    if neg {
        if q > 9_223_372_036_854_775_807u128 {
            i64::MIN + 1
        } else {
            -(q as i64)
        }
    } else {
        if q > 9_223_372_036_854_775_807u128 {
            i64::MAX
        } else {
            q as i64
        }
    }
}

/// Clamp an unbounded integer into the `i64` range used by the executable
/// arithmetic (symmetric: the most negative value is `-i64::MAX`).
pub open spec fn clamp_i64(v: int) -> int {
    if v > i64::MAX as int {
        i64::MAX as int
    } else if v < -(i64::MAX as int) {
        -(i64::MAX as int)
    } else {
        v
    }
}

/// Exact 128-bit product of two 64-bit values; never overflows.
pub fn mul_i128(a: i64, b: i64) -> (r: i128)
    ensures
        r == a as int * b as int,
{
    proof {
        assert(a as int * b as int <= sabs(a as int) * sabs(b as int) && a as int * b as int
            >= -(sabs(a as int) * sabs(b as int)) && sabs(a as int) * sabs(b as int)
            <= 0x8000000000000000 * 0x8000000000000000) by (nonlinear_arith)
            requires
                sabs(a as int) <= 0x8000000000000000 && sabs(b as int) <= 0x8000000000000000,
        ;
    }
    (a as i128) * (b as i128)
}

/// Saturating addition on `i64` (the clamp is a safety net; in-range sums are
/// exact).
pub fn add_i64(a: i64, b: i64) -> (r: i64)
    ensures
        r as int == clamp_i64(a as int + b as int),
{
    let s: i128 = (a as i128) + (b as i128);
    if s > i64::MAX as i128 {
        i64::MAX
    } else if s < -(i64::MAX as i128) {
        -i64::MAX
    } else {
        s as i64
    }
}

/// Saturating subtraction on `i64`.
pub fn sub_i64(a: i64, b: i64) -> (r: i64)
    ensures
        r as int == clamp_i64(a as int - b as int),
{
    let s: i128 = (a as i128) - (b as i128);
    if s > i64::MAX as i128 {
        i64::MAX
    } else if s < -(i64::MAX as i128) {
        -i64::MAX
    } else {
        s as i64
    }
}

/// Absolute value on `i64`, clamped so that `-i64::MIN` stays representable.
pub fn abs_i64(a: i64) -> (r: i64)
    ensures
        r as int == clamp_i64(sabs(a as int)),
{
    if a == i64::MIN {
        i64::MAX
    } else if a < 0 {
        -a
    } else {
        a
    }
}

/// The integer square root: the greatest `r` with `r * r <= n`.
pub open spec fn is_isqrt(n: int, r: int) -> bool {
    &&& r >= 0
    &&& r * r <= n
    &&& (r + 1) * (r + 1) > n
}

/// Binary-search integer square root of a 128-bit magnitude.
pub fn isqrt_u128(n: u128) -> (r: u64)
    requires
        n < 0x1000000000000000000000000000000,  // 2^120
    ensures
        is_isqrt(n as int, r as int),
        r <= 0x1000000000000000,
{
    let mut lo: u64 = 0;
    let mut hi: u64 = 0x1000000000000000;  // 2^60: (2^60)^2 = 2^120 > n
    proof {
        assert((0x1000000000000000 as int) * (0x1000000000000000 as int)
            == 0x1000000000000000000000000000000) by (nonlinear_arith);
    }
    while lo < hi
        invariant
            lo <= hi <= 0x1000000000000000,
            (lo as int) * (lo as int) <= n as int,
            (hi as int + 1) * (hi as int + 1) > n as int,
        decreases hi - lo,
    {
        let mid: u64 = lo + (hi - lo + 1) / 2;
        proof {
            assert((mid as int) * (mid as int) <= 0x1000000000000000000000000000000)
                by (nonlinear_arith)
                requires
                    mid <= 0x1000000000000000,
            ;
        }
        let sq: u128 = (mid as u128) * (mid as u128);
        if sq <= n {
            lo = mid;
        } else {
            proof {
                assert((mid as int - 1 + 1) * (mid as int - 1 + 1) == (mid as int) * (
                mid as int));
            }
            hi = mid - 1;
        }
    }
    lo
}

/// Truncating division with a divisor of either sign.
pub open spec fn div_tz(n: int, d: int) -> int {
    if d > 0 {
        div_t(n, d)
    } else {
        div_t(-n, -d)
    }
}

/// The integer square root as a function: the unique `r` with
/// `r * r <= n < (r + 1) * (r + 1)`.
pub open spec fn sqrtf(n: int) -> int {
    choose|r: int| is_isqrt(n, r)
}

/// Any witness of `is_isqrt` is the square root.
pub proof fn lemma_sqrtf(n: int, r: int)
    requires
        is_isqrt(n, r),
    ensures
        sqrtf(n) == r,
{
    assert(exists|x: int| is_isqrt(n, x));
    let r2 = sqrtf(n);
    assert(is_isqrt(n, r2));
    assert(r == r2) by (nonlinear_arith)
        requires
            r >= 0,
            r2 >= 0,
            r * r <= n,
            (r + 1) * (r + 1) > n,
            r2 * r2 <= n,
            (r2 + 1) * (r2 + 1) > n,
    ;
}

/// Truncating signed division of 128-bit values, on magnitudes.
pub fn div_i128(n: i128, d: i128) -> (r: i128)
    requires
        d != 0,
        sabs(n as int) < 0x40000000000000000000000000000000,
    ensures
        r as int == div_tz(n as int, d as int),
{
    let mn: u128 = if n >= 0 {
        n as u128
    } else {
        (-n) as u128
    };
    let md: u128 = if d >= 0 {
        d as u128
    } else if d == i128::MIN {
        0x80000000000000000000000000000000u128
    } else {
        (-d) as u128
    };
    let q: u128 = mn / md;
    let neg = (n < 0) != (d < 0);
    proof {
        vstd::arithmetic::div_mod::lemma_div_is_ordered(mn as int, sabs(n as int), md as int);
        if d > 0 {
            lemma_div_t_mag(n as int, d as int);
        } else {
            lemma_div_t_mag(-n, -(d as int));
        }
    }
    if neg {
        -(q as i128)
    } else {
        q as i128
    }
}

/// Scaling by one is the identity: `smul(x, SCALE) == x`.
pub proof fn lemma_smul_one(x: int)
    ensures
        smul(x, SCALE as int) == x,
{
    if x >= 0 {
        assert(x * (SCALE as int) >= 0) by (nonlinear_arith)
            requires
                x >= 0,
        ;
        vstd::arithmetic::div_mod::lemma_div_by_multiple(x, SCALE as int);
        assert(x * (SCALE as int) == (SCALE as int) * x) by (nonlinear_arith);
    } else {
        assert(-(x * (SCALE as int)) == (-x) * (SCALE as int)) by (nonlinear_arith);
        assert(x * (SCALE as int) < 0) by (nonlinear_arith)
            requires
                x < 0,
        ;
        vstd::arithmetic::div_mod::lemma_div_by_multiple(-x, SCALE as int);
        assert((-x) * (SCALE as int) == (SCALE as int) * (-x)) by (nonlinear_arith);
    }
}

/// Scaling zero gives zero.
pub proof fn lemma_smul_zero(x: int)
    ensures
        smul(x, 0) == 0,
        smul(0, x) == 0,
{
    assert(x * 0 == 0 && 0 * x == 0) by (nonlinear_arith);
}

/// Magnitude bound for a product: if `|a| <= ma` and `|b| <= mb` then
/// `|a * b| <= ma * mb`.
pub proof fn lemma_mul_bound(a: int, b: int, ma: int, mb: int)
    requires
        sabs(a) <= ma,
        sabs(b) <= mb,
    ensures
        sabs(a * b) <= ma * mb,
        -(ma * mb) <= a * b <= ma * mb,
{
    lemma_abs_mul(a, b);
    assert(sabs(a) * sabs(b) <= ma * mb) by (nonlinear_arith)
        requires
            0 <= sabs(a) <= ma,
            0 <= sabs(b) <= mb,
    ;
}

/// Magnitude bound for a scaled product: if `|a| <= ma` and `|b| <= mb` then
/// `|div_t(a * b, d)| <= (ma * mb) / d`.
pub proof fn lemma_mul_div_bound(a: int, b: int, d: int, ma: int, mb: int)
    requires
        d > 0,
        sabs(a) <= ma,
        sabs(b) <= mb,
    ensures
        sabs(div_t(a * b, d)) <= (ma * mb) / d,
{
    lemma_abs_mul(a, b);
    lemma_div_t_mag(a * b, d);
    assert(sabs(a) * sabs(b) <= ma * mb) by (nonlinear_arith)
        requires
            0 <= sabs(a) <= ma,
            0 <= sabs(b) <= mb,
    ;
    vstd::arithmetic::div_mod::lemma_div_is_ordered(sabs(a * b), ma * mb, d);
}

proof fn lemma_abs_mul(a: int, b: int)
    ensures
        sabs(a * b) == sabs(a) * sabs(b),
        (a * b >= 0) <==> (a >= 0 && b >= 0) || (a <= 0 && b <= 0),
{
    assert(sabs(a * b) == sabs(a) * sabs(b) && ((a * b >= 0) <==> (a >= 0 && b >= 0) || (a <= 0
        && b <= 0))) by (nonlinear_arith);
}

pub proof fn lemma_div_t_mag(n: int, d: int)
    requires
        d > 0,
    ensures
        sabs(div_t(n, d)) == sabs(n) / d,
        n >= 0 ==> div_t(n, d) >= 0,
        n < 0 ==> div_t(n, d) <= 0,
{
    if n >= 0 {
        assert(div_t(n, d) == n / d);
        vstd::arithmetic::div_mod::lemma_div_is_ordered(0, n, d);
    } else {
        assert(div_t(n, d) == -((-n) / d));
        vstd::arithmetic::div_mod::lemma_div_is_ordered(0, -n, d);
    }
}

} // verus!
