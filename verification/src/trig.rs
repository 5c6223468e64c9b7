//! Minimal fixed-point trigonometry for the camera's focal-length
//! computation. Sine and cosine are defined by their truncated
//! alternating series (terms through the eleventh and twelfth power),
//! which is accurate to a few millionths over a camera's half field of
//! view; tangent is their quotient. The series itself is the
//! specification: each executable function returns exactly what the
//! formula says.

use vstd::prelude::*;
use crate::fx::{add_s, div_s, mul_s, sub_s, fx_add, fx_div, fx_mul, fx_sub, ONE};

verus! {

/// Radians per degree (the fixed-point representation of pi / 180).
pub const RAD_PER_DEG: i64 = 17_453;

/// The truncated sine series.
pub open spec fn sin_s(x: int) -> int {
    let x2 = mul_s(x, x);
    let x3 = mul_s(x2, x);
    let x5 = mul_s(x3, x2);
    let x7 = mul_s(x5, x2);
    let x9 = mul_s(x7, x2);
    let x11 = mul_s(x9, x2);
    sub_s(
        add_s(
            sub_s(add_s(sub_s(x, div_s(x3, 6_000_000)), div_s(x5, 120_000_000)), div_s(
                x7,
                5_040_000_000,
            )),
            div_s(x9, 362_880_000_000),
        ),
        div_s(x11, 39_916_800_000_000),
    )
}

/// The truncated cosine series.
pub open spec fn cos_s(x: int) -> int {
    let x2 = mul_s(x, x);
    let x4 = mul_s(x2, x2);
    let x6 = mul_s(x4, x2);
    let x8 = mul_s(x6, x2);
    let x10 = mul_s(x8, x2);
    let x12 = mul_s(x10, x2);
    add_s(
        sub_s(
            add_s(
                sub_s(add_s(sub_s(ONE as int, div_s(x2, 2_000_000)), div_s(x4, 24_000_000)), div_s(
                    x6,
                    720_000_000,
                )),
                div_s(x8, 40_320_000_000),
            ),
            div_s(x10, 3_628_800_000_000),
        ),
        div_s(x12, 479_001_600_000_000),
    )
}

/// Tangent as the quotient of the two series; near a right angle the
/// cosine underflows toward zero and the quotient clamps large, which
/// matches a camera opened to a degenerate field of view.
pub open spec fn tan_s(x: int) -> int {
    div_s(sin_s(x), cos_s(x))
}

/// Sine by the truncated series.
pub fn fx_sin(x: i64) -> (r: i64)
    ensures
        r as int == sin_s(x as int),
{
    let x2 = fx_mul(x, x);
    let x3 = fx_mul(x2, x);
    let x5 = fx_mul(x3, x2);
    let x7 = fx_mul(x5, x2);
    let x9 = fx_mul(x7, x2);
    let x11 = fx_mul(x9, x2);
    fx_sub(
        fx_add(
            fx_sub(
                fx_add(fx_sub(x, fx_div(x3, 6_000_000)), fx_div(x5, 120_000_000)),
                fx_div(x7, 5_040_000_000),
            ),
            fx_div(x9, 362_880_000_000),
        ),
        fx_div(x11, 39_916_800_000_000),
    )
}

/// Cosine by the truncated series.
pub fn fx_cos(x: i64) -> (r: i64)
    ensures
        r as int == cos_s(x as int),
{
    let x2 = fx_mul(x, x);
    let x4 = fx_mul(x2, x2);
    let x6 = fx_mul(x4, x2);
    let x8 = fx_mul(x6, x2);
    let x10 = fx_mul(x8, x2);
    let x12 = fx_mul(x10, x2);
    fx_add(
        fx_sub(
            fx_add(
                fx_sub(
                    fx_add(fx_sub(ONE, fx_div(x2, 2_000_000)), fx_div(x4, 24_000_000)),
                    fx_div(x6, 720_000_000),
                ),
                fx_div(x8, 40_320_000_000),
            ),
            fx_div(x10, 3_628_800_000_000),
        ),
        fx_div(x12, 479_001_600_000_000),
    )
}

/// Tangent as sine over cosine.
pub fn fx_tan(x: i64) -> (r: i64)
    ensures
        r as int == tan_s(x as int),
{
    fx_div(fx_sin(x), fx_cos(x))
}

} // verus!
