//! Fixed-point time and ratios.
//!
//! Time is counted in ticks. Weights and speeds are ratios scaled by [`UNIT`].

use vstd::prelude::*;

verus! {

/// Ticks in one second of animation time.
pub const TICKS_PER_SECOND: i64 = 1_000_000;

/// The fixed-point representation of the ratio one.
pub const UNIT: i64 = 1_000_000;

/// `x` limited to the range of `i64`.
pub open spec fn saturated(x: int) -> i64 {
    if x > i64::MAX {
        i64::MAX
    } else if x < i64::MIN {
        i64::MIN
    } else {
        x as i64
    }
}

/// Quotient rounded toward zero, for a positive divisor.
pub open spec fn quotient_toward_zero(a: int, d: int) -> int {
    if a >= 0 {
        a / d
    } else {
        -((-a) / d)
    }
}

/// Remainder whose sign follows the dividend, for a positive divisor.
pub open spec fn remainder_toward_zero(a: int, d: int) -> int {
    if a >= 0 {
        a % d
    } else {
        -((-a) % d)
    }
}

/// `value` multiplied by the fixed-point ratio `ratio`.
pub open spec fn scaled(value: int, ratio: int) -> int {
    quotient_toward_zero(value * ratio, UNIT as int)
}

/// What a rate per second comes to over `dt` ticks.
pub open spec fn accrued(rate: int, dt: int) -> int {
    quotient_toward_zero(rate * dt, TICKS_PER_SECOND as int)
}

/// Limits `x` to the range of `i64`.
pub fn saturate(x: i128) -> (r: i64)
    ensures
        r == saturated(x as int),
{
    if x > i64::MAX as i128 {
        i64::MAX
    } else if x < i64::MIN as i128 {
        i64::MIN
    } else {
        x as i64
    }
}

/// The product of `a` and `b` divided by a positive `divisor`, rounding
/// toward zero.
fn product_over(a: i64, b: i64, divisor: i64) -> (r: i128)
    requires
        divisor > 0,
    ensures
        r == quotient_toward_zero(a as int * b as int, divisor as int),
        -0x4000_0000_0000_0000_0000_0000_0000_0000 <= r <= 0x4000_0000_0000_0000_0000_0000_0000_0000,
{
    assert(-0x4000_0000_0000_0000_0000_0000_0000_0000 <= (a as int) * (b as int)
        <= 0x4000_0000_0000_0000_0000_0000_0000_0000) by (nonlinear_arith)
        requires
            -0x8000_0000_0000_0000 <= a <= 0x7fff_ffff_ffff_ffff,
            -0x8000_0000_0000_0000 <= b <= 0x7fff_ffff_ffff_ffff,
    ;
    let product: i128 = (a as i128) * (b as i128);
    if product >= 0 {
        product / (divisor as i128)
    } else {
        -((-product) / (divisor as i128))
    }
}

/// Multiplies `value` by the fixed-point ratio `ratio`, rounding toward zero.
pub fn scale(value: i64, ratio: i64) -> (r: i128)
    ensures
        r == scaled(value as int, ratio as int),
        -0x4000_0000_0000_0000_0000_0000_0000_0000 <= r <= 0x4000_0000_0000_0000_0000_0000_0000_0000,
{
    product_over(value, ratio, UNIT)
}

/// What a rate per second comes to over `dt` ticks, rounding toward zero.
pub fn accrue(rate: i64, dt: i64) -> (r: i128)
    ensures
        r == accrued(rate as int, dt as int),
        -0x4000_0000_0000_0000_0000_0000_0000_0000 <= r <= 0x4000_0000_0000_0000_0000_0000_0000_0000,
{
    product_over(rate, dt, TICKS_PER_SECOND)
}

/// Remainder of `a` by a positive `d`, with the sign of `a`.
pub fn remainder(a: i64, d: i64) -> (r: i64)
    requires
        d > 0,
    ensures
        r == remainder_toward_zero(a as int, d as int),
        -d < r < d,
{
    if a >= 0 {
        a % d
    } else {
        let m: i128 = (-(a as i128)) % (d as i128);
        (-m) as i64
    }
}

} // verus!
