//! Pixel arithmetic that cannot leave the range of `i32`.

use vstd::prelude::*;

verus! {

/// The pixel coordinate nearest to `v`.
pub open spec fn px(v: int) -> i32 {
    if v < i32::MIN {
        i32::MIN
    } else if v > i32::MAX {
        i32::MAX
    } else {
        v as i32
    }
}

/// The smaller of two numbers.
pub open spec fn min_int(a: int, b: int) -> int {
    if a <= b {
        a
    } else {
        b
    }
}

/// The larger of two numbers.
pub open spec fn max_int(a: int, b: int) -> int {
    if a >= b {
        a
    } else {
        b
    }
}

/// Brings a wide intermediate result back to a pixel coordinate.
pub fn clamp_px(v: i64) -> (r: i32)
    ensures
        r == px(v as int),
{
    if v < i32::MIN as i64 {
        i32::MIN
    } else if v > i32::MAX as i64 {
        i32::MAX
    } else {
        v as i32
    }
}

/// `a + b`, stopped at the ends of the pixel range.
pub fn px_add(a: i32, b: i32) -> (r: i32)
    ensures
        r == px(a + b),
{
    clamp_px(a as i64 + b as i64)
}

/// The smaller of two coordinates.
pub fn min_i32(a: i32, b: i32) -> (r: i32)
    ensures
        r == min_int(a as int, b as int),
{
    if a <= b {
        a
    } else {
        b
    }
}

/// The larger of two coordinates.
pub fn max_i32(a: i32, b: i32) -> (r: i32)
    ensures
        r == max_int(a as int, b as int),
{
    if a >= b {
        a
    } else {
        b
    }
}

/// The quotient of `a` by `b`, rounded toward zero.
pub open spec fn truncated_quotient(a: int, b: int) -> int
    recommends
        b != 0,
{
    let magnitude = (if a < 0 {
        -a
    } else {
        a
    }) / (if b < 0 {
        -b
    } else {
        b
    });
    if (a < 0) != (b < 0) {
        -magnitude
    } else {
        magnitude
    }
}

/// Divides and rounds toward zero.
pub fn div_toward_zero(a: i128, b: i128) -> (q: i128)
    requires
        b != 0,
        i128::MIN < a,
        i128::MIN < b,
    ensures
        q == truncated_quotient(a as int, b as int),
{
    let na: i128 = if a < 0 {
        -a
    } else {
        a
    };
    let nb: i128 = if b < 0 {
        -b
    } else {
        b
    };
    let magnitude: i128 = na / nb;
    assert(0 <= magnitude <= na) by (nonlinear_arith)
        requires
            magnitude == na / nb,
            0 <= na,
            0 < nb,
    ;
    if (a < 0) != (b < 0) {
        -magnitude
    } else {
        magnitude
    }
}

/// Brings a very wide intermediate result back to a pixel coordinate.
pub fn clamp_px_wide(v: i128) -> (r: i32)
    ensures
        r == px(v as int),
{
    if v < i32::MIN as i128 {
        i32::MIN
    } else if v > i32::MAX as i128 {
        i32::MAX
    } else {
        v as i32
    }
}

} // verus!
