//! Three-component vectors over the fixed-point scalar type, with
//! componentwise arithmetic, dot and cross products, length and
//! normalization, and the tone-mapping step that turns a linear-light
//! color into an 8-bit pixel. Every executable operation returns exactly
//! what its integer specification says.

use vstd::prelude::*;
use crate::fx::{
    add_s, div_s, mul_s, sat, sqrt_s, sub_s, fx_add, fx_div, fx_max, fx_min, fx_mul, fx_sqrt,
    fx_sub, ONE,
};

verus! {

/// A vector (or a color) of three fixed-point components.
#[derive(Clone, Copy, Debug, PartialEq, Eq, Structural)]
pub struct Vec3 {
    pub x: i64,
    pub y: i64,
    pub z: i64,
}

/// The vector with the given integer components, saturated into range.
pub open spec fn v3(x: int, y: int, z: int) -> Vec3 {
    Vec3 { x: sat(x) as i64, y: sat(y) as i64, z: sat(z) as i64 }
}

/// Componentwise vector sum.
pub open spec fn vadd_s(a: Vec3, b: Vec3) -> Vec3 {
    v3(add_s(a.x as int, b.x as int), add_s(a.y as int, b.y as int), add_s(a.z as int, b.z as int))
}

/// Vector plus scalar on every component.
pub open spec fn vaddk_s(a: Vec3, k: int) -> Vec3 {
    v3(add_s(a.x as int, k), add_s(a.y as int, k), add_s(a.z as int, k))
}

/// Componentwise vector difference.
pub open spec fn vsub_s(a: Vec3, b: Vec3) -> Vec3 {
    v3(sub_s(a.x as int, b.x as int), sub_s(a.y as int, b.y as int), sub_s(a.z as int, b.z as int))
}

/// Vector minus scalar on every component.
pub open spec fn vsubk_s(a: Vec3, k: int) -> Vec3 {
    v3(sub_s(a.x as int, k), sub_s(a.y as int, k), sub_s(a.z as int, k))
}

/// Componentwise vector product.
pub open spec fn vmul_s(a: Vec3, b: Vec3) -> Vec3 {
    v3(mul_s(a.x as int, b.x as int), mul_s(a.y as int, b.y as int), mul_s(a.z as int, b.z as int))
}

/// Vector scaled by a scalar.
pub open spec fn vmulk_s(a: Vec3, k: int) -> Vec3 {
    v3(mul_s(a.x as int, k), mul_s(a.y as int, k), mul_s(a.z as int, k))
}

/// Componentwise vector quotient.
pub open spec fn vdiv_s(a: Vec3, b: Vec3) -> Vec3 {
    v3(div_s(a.x as int, b.x as int), div_s(a.y as int, b.y as int), div_s(a.z as int, b.z as int))
}

/// Vector divided by a scalar.
pub open spec fn vdivk_s(a: Vec3, k: int) -> Vec3 {
    v3(div_s(a.x as int, k), div_s(a.y as int, k), div_s(a.z as int, k))
}

/// Componentwise negation.
pub open spec fn vneg_s(a: Vec3) -> Vec3 {
    v3(-(a.x as int), -(a.y as int), -(a.z as int))
}

/// Dot product.
pub open spec fn dot_s(a: Vec3, b: Vec3) -> int {
    add_s(
        add_s(mul_s(a.x as int, b.x as int), mul_s(a.y as int, b.y as int)),
        mul_s(a.z as int, b.z as int),
    )
}

/// Cross product.
pub open spec fn cross_s(a: Vec3, b: Vec3) -> Vec3 {
    v3(
        sub_s(mul_s(a.y as int, b.z as int), mul_s(a.z as int, b.y as int)),
        sub_s(mul_s(a.z as int, b.x as int), mul_s(a.x as int, b.z as int)),
        sub_s(mul_s(a.x as int, b.y as int), mul_s(a.y as int, b.x as int)),
    )
}

/// Squared length.
pub open spec fn ls_s(a: Vec3) -> int {
    dot_s(a, a)
}

/// Length.
pub open spec fn len_s(a: Vec3) -> int {
    sqrt_s(ls_s(a))
}

/// Normalization: each component divided by the length. A zero vector
/// divides by zero, so its components clamp to the large sentinel.
pub open spec fn unit_s(a: Vec3) -> Vec3 {
    vdivk_s(a, len_s(a))
}

/// Sum of the components.
pub open spec fn total_s(a: Vec3) -> int {
    add_s(add_s(a.x as int, a.y as int), a.z as int)
}

/// Componentwise magnitude.
pub open spec fn vabs_s(a: Vec3) -> Vec3 {
    v3(
        if a.x < 0 {
            -(a.x as int)
        } else {
            a.x as int
        },
        if a.y < 0 {
            -(a.y as int)
        } else {
            a.y as int
        },
        if a.z < 0 {
            -(a.z as int)
        } else {
            a.z as int
        },
    )
}

/// A value, or zero if it is negative.
pub open spec fn max0_s(v: int) -> int {
    if v >= 0 {
        v
    } else {
        0
    }
}

/// The tone curve applied to one non-negative channel: `3c / (2k + c)`
/// compresses unbounded linear light toward the unit interval.
pub open spec fn tone_curve_s(c: int, k: int) -> int {
    div_s(mul_s(3_000_000, c), add_s(mul_s(2_000_000, k), c))
}

/// The overflow spill for one channel: however much the other two
/// channels exceed the unit interval is added to this channel, up to
/// this channel's remaining headroom.
pub open spec fn spill_s(own: int, other1: int, other2: int) -> int {
    let away = add_s(max0_s(sub_s(other1, ONE as int)), max0_s(sub_s(other2, ONE as int)));
    let cap = max0_s(sub_s(ONE as int, own));
    let kept = if own <= ONE as int {
        own
    } else {
        ONE as int
    };
    add_s(kept, sub_s(away, max0_s(sub_s(away, cap))))
}

/// Gamma correction and quantization of one channel: the square root
/// scaled by 255.9 and truncated into a byte, clamping below zero and
/// above 255.
pub open spec fn byte_s(c: int) -> u8 {
    let v = mul_s(sqrt_s(c), 255_900_000);
    let pos = max0_s(v);
    let t = pos / 1_000_000;
    if t > 255 {
        255u8
    } else {
        t as u8
    }
}

/// The full tone map of one pixel: clamp negatives away, compress each
/// channel, redistribute overflow between channels (each step reading
/// the channels the previous step wrote), then gamma-correct and
/// quantize.
pub open spec fn colorize_s(v: Vec3, k: int) -> (u8, u8, u8) {
    let cx = tone_curve_s(max0_s(v.x as int), k);
    let cy = tone_curve_s(max0_s(v.y as int), k);
    let cz = tone_curve_s(max0_s(v.z as int), k);
    let cx1 = spill_s(cx, cy, cz);
    let cy1 = spill_s(cy, cx1, cz);
    let cz1 = spill_s(cz, cx1, cy1);
    (byte_s(cx1), byte_s(cy1), byte_s(cz1))
}

/// Componentwise non-negativity (colors and radiance never go below
/// zero).
pub open spec fn vnonneg_s(v: Vec3) -> bool {
    v.x >= 0 && v.y >= 0 && v.z >= 0
}

/// The saturating sum of a sequence of vectors, accumulated in order
/// from the zero vector.
pub open spec fn vsum_s(vs: Seq<Vec3>) -> Vec3
    decreases vs.len(),
{
    if vs.len() == 0 {
        Vec3 { x: 0, y: 0, z: 0 }
    } else {
        vadd_s(vsum_s(vs.drop_last()), vs.last())
    }
}

/// Adding non-negative vectors gives a non-negative vector.
pub proof fn lemma_vadd_s_nonneg(a: Vec3, b: Vec3)
    requires
        vnonneg_s(a),
        vnonneg_s(b),
    ensures
        vnonneg_s(vadd_s(a, b)),
{
}

/// Multiplying non-negative vectors componentwise gives a non-negative
/// vector.
pub proof fn lemma_vmul_s_nonneg(a: Vec3, b: Vec3)
    requires
        vnonneg_s(a),
        vnonneg_s(b),
    ensures
        vnonneg_s(vmul_s(a, b)),
{
    crate::fx::lemma_mul_s_nonneg(a.x as int, b.x as int);
    crate::fx::lemma_mul_s_nonneg(a.y as int, b.y as int);
    crate::fx::lemma_mul_s_nonneg(a.z as int, b.z as int);
}

/// Scaling a non-negative vector by a non-negative scalar keeps it
/// non-negative.
pub proof fn lemma_vmulk_s_nonneg(a: Vec3, k: int)
    requires
        vnonneg_s(a),
        k >= 0,
    ensures
        vnonneg_s(vmulk_s(a, k)),
{
    crate::fx::lemma_mul_s_nonneg(a.x as int, k);
    crate::fx::lemma_mul_s_nonneg(a.y as int, k);
    crate::fx::lemma_mul_s_nonneg(a.z as int, k);
}

/// Dividing a non-negative vector by a non-negative scalar keeps it
/// non-negative.
pub proof fn lemma_vdivk_s_nonneg(a: Vec3, k: int)
    requires
        vnonneg_s(a),
        k >= 0,
    ensures
        vnonneg_s(vdivk_s(a, k)),
{
    crate::fx::lemma_div_s_nonneg(a.x as int, k);
    crate::fx::lemma_div_s_nonneg(a.y as int, k);
    crate::fx::lemma_div_s_nonneg(a.z as int, k);
}

/// One channel through the tone curve.
fn tone_curve(c: i64, k: i64) -> (r: i64)
    ensures
        r as int == tone_curve_s(c as int, k as int),
{
    fx_div(fx_mul(3_000_000, c), fx_add(fx_mul(2_000_000, k), c))
}

/// One channel's overflow spill.
fn spill(own: i64, other1: i64, other2: i64) -> (r: i64)
    ensures
        r as int == spill_s(own as int, other1 as int, other2 as int),
{
    let away = fx_add(fx_max(fx_sub(other1, ONE), 0), fx_max(fx_sub(other2, ONE), 0));
    let cap = fx_max(fx_sub(ONE, own), 0);
    fx_add(fx_min(own, ONE), fx_sub(away, fx_max(fx_sub(away, cap), 0)))
}

/// One channel gamma-corrected and quantized to a byte.
fn to_byte(c: i64) -> (r: u8)
    ensures
        r == byte_s(c as int),
{
    let v = fx_mul(fx_sqrt(c), 255_900_000);
    let pos = fx_max(v, 0);
    let t = (pos as u64) / 1_000_000;
    if t > 255 {
        255
    } else {
        t as u8
    }
}

/// Summing copies of one non-negative vector scales it exactly, as
/// long as the scaled components stay representable.
pub proof fn lemma_vsum_s_constant(vs: Seq<Vec3>, p: Vec3)
    requires
        forall|i: int| 0 <= i < vs.len() ==> vs[i] == p,
        vnonneg_s(p),
        p.x * vs.len() <= crate::fx::FX_MAX as int,
        p.y * vs.len() <= crate::fx::FX_MAX as int,
        p.z * vs.len() <= crate::fx::FX_MAX as int,
    ensures
        vsum_s(vs) == (Vec3 {
            x: (p.x * vs.len()) as i64,
            y: (p.y * vs.len()) as i64,
            z: (p.z * vs.len()) as i64,
        }),
    decreases vs.len(),
{
    let n = vs.len() as int;
    if vs.len() == 0 {
        assert(p.x * 0 == 0);
    } else {
        assert(forall|i: int| 0 <= i < vs.drop_last().len() ==> #[trigger] vs.drop_last()[i] == p);
        assert(p.x * (n - 1) <= p.x * n && p.y * (n - 1) <= p.y * n && p.z * (n - 1) <= p.z * n)
            by (nonlinear_arith)
            requires
                p.x >= 0 && p.y >= 0 && p.z >= 0,
                n >= 1,
        ;
        assert(p.x * (n - 1) >= 0 && p.y * (n - 1) >= 0 && p.z * (n - 1) >= 0) by (nonlinear_arith)
            requires
                p.x >= 0 && p.y >= 0 && p.z >= 0,
                n >= 1,
        ;
        lemma_vsum_s_constant(vs.drop_last(), p);
        assert(vs.last() == p);
        assert(p.x * (n - 1) + p.x == p.x * n && p.y * (n - 1) + p.y == p.y * n && p.z * (n - 1)
            + p.z == p.z * n) by (nonlinear_arith);
    }
}

/// The computed length of a vector along one axis is exact: squaring,
/// rescaling and the rounded square root return the component itself
/// whenever it is at least one and far from the representation's edge.
pub proof fn lemma_axis_length(z: i64)
    requires
        ONE <= z <= 3_000_000_000_000,
    ensures
        len_s(Vec3 { x: 0, y: 0, z }) == z,
{
    let v = Vec3 { x: 0, y: 0, z };
    assert((z as int) * (z as int) <= 9_000_000_000_000_000_000_000_000 && (z as int) * (z as int)
        >= 1_000_000_000_000) by (nonlinear_arith)
        requires
            1_000_000 <= z as int <= 3_000_000_000_000,
    ;
    crate::fx::lemma_mul_s_round(z as int, z as int);
    crate::fx::lemma_mul_s_round(0, 0);
    let lsv = ls_s(v);
    assert(lsv == mul_s(z as int, z as int));
    assert(1 <= lsv <= crate::fx::FX_MAX as int);
    crate::fx::lemma_sqrt_s_bracket(lsv);
    let l = len_s(v);
    // The computed square differs from the true square by at most half
    // a unit, and the root brackets the computed square within one
    // root, so no integer other than the component itself fits.
    assert(l * l - (z as int) * (z as int) <= l + 500_000 && (z as int) * (z as int) - l * l <= l
        + 500_000);
    if l <= z - 1 {
        assert(false) by (nonlinear_arith)
            requires
                (z as int) * (z as int) - l * l <= l + 500_000,
                l >= 1,
                z as int >= 1_000_000,
                l <= z - 1,
        ;
    }
    if l >= z + 1 {
        assert(false) by (nonlinear_arith)
            requires
                l * l - (z as int) * (z as int) <= l + 500_000,
                l >= 1,
                z as int >= 1_000_000,
                l >= z + 1,
        ;
    }
}

/// Normal vectors have unit length within tolerance: normalizing any
/// vector whose computed length is at least a tenth (and whose
/// components are far from the representation's edge) yields a vector
/// whose squared length is within 0.001 of one. Both hit paths build
/// their normals through this normalization.
pub proof fn lemma_unit_near_unit(v: Vec3)
    requires
        100_000 <= len_s(v),
        -1_000_000_000_000 <= v.x <= 1_000_000_000_000,
        -1_000_000_000_000 <= v.y <= 1_000_000_000_000,
        -1_000_000_000_000 <= v.z <= 1_000_000_000_000,
    ensures
        (ONE as int) - 1000 <= ls_s(unit_s(v)) <= (ONE as int) + 1000,
{
    let s = ONE as int;
    let x = v.x as int;
    let y = v.y as int;
    let z = v.z as int;

    // The computed squared length is the exact squared length up to
    // one unit of rounding per component.
    assert(x * x <= 1_000_000_000_000_000_000_000_000 && x * x >= 0) by (nonlinear_arith)
        requires
            -1_000_000_000_000 <= x <= 1_000_000_000_000,
    ;
    assert(y * y <= 1_000_000_000_000_000_000_000_000 && y * y >= 0) by (nonlinear_arith)
        requires
            -1_000_000_000_000 <= y <= 1_000_000_000_000,
    ;
    assert(z * z <= 1_000_000_000_000_000_000_000_000 && z * z >= 0) by (nonlinear_arith)
        requires
            -1_000_000_000_000 <= z <= 1_000_000_000_000,
    ;
    crate::fx::lemma_mul_s_round(x, x);
    crate::fx::lemma_mul_s_round(y, y);
    crate::fx::lemma_mul_s_round(z, z);
    let mx = mul_s(x, x);
    let my = mul_s(y, y);
    let mz = mul_s(z, z);
    let q = x * x + y * y + z * z;
    let lsv = ls_s(v);
    assert(lsv == mx + my + mz);
    assert(s * lsv - q <= 3 * s && q - s * lsv <= 3 * s);

    // The computed length brackets the computed squared length.
    let l = len_s(v);
    assert(lsv >= 1);
    crate::fx::lemma_sqrt_s_bracket(lsv);
    assert(l * l - q <= l + 3 * s && q - l * l <= l + 3 * s);

    // So no component can be much longer than the length itself.
    assert((l + 16) * (l + 16) >= l * l + l + 3 * s) by (nonlinear_arith)
        requires
            l >= 100_000,
            s == 1_000_000,
    ;
    assert(-(l + 16) <= x <= l + 16) by (nonlinear_arith)
        requires
            x * x <= (l + 16) * (l + 16),
            l >= 0,
    ;
    assert(-(l + 16) <= y <= l + 16) by (nonlinear_arith)
        requires
            y * y <= (l + 16) * (l + 16),
            l >= 0,
    ;
    assert(-(l + 16) <= z <= l + 16) by (nonlinear_arith)
        requires
            z * z <= (l + 16) * (l + 16),
            l >= 0,
    ;

    // Each normalized component lands within one denominator of the
    // exact quotient.
    crate::fx::lemma_div_s_round(x, l);
    crate::fx::lemma_div_s_round(y, l);
    crate::fx::lemma_div_s_round(z, l);
    let ux = div_s(x, l);
    let uy = div_s(y, l);
    let uz = div_s(z, l);
    let gx = ux * l - x * s;
    let gy = uy * l - y * s;
    let gz = uz * l - z * s;
    assert(-l <= gx <= l && -l <= gy <= l && -l <= gz <= l);
    assert(-(s + 161) <= ux <= s + 161) by (nonlinear_arith)
        requires
            ux * l == x * s + gx,
            -(l + 16) <= x <= l + 16,
            -l <= gx <= l,
            l >= 100_000,
            s == 1_000_000,
    ;
    assert(-(s + 161) <= uy <= s + 161) by (nonlinear_arith)
        requires
            uy * l == y * s + gy,
            -(l + 16) <= y <= l + 16,
            -l <= gy <= l,
            l >= 100_000,
            s == 1_000_000,
    ;
    assert(-(s + 161) <= uz <= s + 161) by (nonlinear_arith)
        requires
            uz * l == z * s + gz,
            -(l + 16) <= z <= l + 16,
            -l <= gz <= l,
            l >= 100_000,
            s == 1_000_000,
    ;
    let u = unit_s(v);
    assert(u.x as int == ux && u.y as int == uy && u.z as int == uz);

    // The computed squared length of the normalized vector tracks the
    // exact sum of squared quotients.
    assert(ux * ux <= 2_000_000_000_000 && ux * ux >= 0) by (nonlinear_arith)
        requires
            -(1_000_161) <= ux <= 1_000_161,
    ;
    assert(uy * uy <= 2_000_000_000_000 && uy * uy >= 0) by (nonlinear_arith)
        requires
            -(1_000_161) <= uy <= 1_000_161,
    ;
    assert(uz * uz <= 2_000_000_000_000 && uz * uz >= 0) by (nonlinear_arith)
        requires
            -(1_000_161) <= uz <= 1_000_161,
    ;
    crate::fx::lemma_mul_s_round(ux, ux);
    crate::fx::lemma_mul_s_round(uy, uy);
    crate::fx::lemma_mul_s_round(uz, uz);
    let big_u = ux * ux + uy * uy + uz * uz;
    let lsu = ls_s(u);
    assert(lsu == mul_s(ux, ux) + mul_s(uy, uy) + mul_s(uz, uz));
    assert(s * lsu - big_u <= 3 * s && big_u - s * lsu <= 3 * s);

    // Per component, the squared quotient scaled by the squared length
    // differs from the squared component scaled by the squared unit by
    // a bounded cross term.
    let e = 2 * (l + 16) * s * l + l * l;
    assert(ux * ux * (l * l) - x * x * (s * s) <= e && x * x * (s * s) - ux * ux * (l * l) <= e)
        by (nonlinear_arith)
        requires
            ux * l == x * s + gx,
            -(l + 16) <= x <= l + 16,
            -l <= gx <= l,
            l >= 1,
            s >= 1,
            e == 2 * (l + 16) * s * l + l * l,
    ;
    assert(uy * uy * (l * l) - y * y * (s * s) <= e && y * y * (s * s) - uy * uy * (l * l) <= e)
        by (nonlinear_arith)
        requires
            uy * l == y * s + gy,
            -(l + 16) <= y <= l + 16,
            -l <= gy <= l,
            l >= 1,
            s >= 1,
            e == 2 * (l + 16) * s * l + l * l,
    ;
    assert(uz * uz * (l * l) - z * z * (s * s) <= e && z * z * (s * s) - uz * uz * (l * l) <= e)
        by (nonlinear_arith)
        requires
            uz * l == z * s + gz,
            -(l + 16) <= z <= l + 16,
            -l <= gz <= l,
            l >= 1,
            s >= 1,
            e == 2 * (l + 16) * s * l + l * l,
    ;
    assert(big_u * (l * l) == ux * ux * (l * l) + uy * uy * (l * l) + uz * uz * (l * l))
        by (nonlinear_arith)
        requires
            big_u == ux * ux + uy * uy + uz * uz,
    ;
    assert(q * (s * s) == x * x * (s * s) + y * y * (s * s) + z * z * (s * s))
        by (nonlinear_arith)
        requires
            q == x * x + y * y + z * z,
    ;
    assert(big_u * (l * l) - q * (s * s) <= 3 * e && q * (s * s) - big_u * (l * l) <= 3 * e);

    // The exact squared length in turn differs from the squared
    // computed length by the bracketing bounds above.
    let f = (s * s) * (l + 3 * s);
    assert(q * (s * s) - (l * l) * (s * s) <= f && (l * l) * (s * s) - q * (s * s) <= f)
        by (nonlinear_arith)
        requires
            l * l - q <= l + 3 * s,
            q - l * l <= l + 3 * s,
            s == 1_000_000,
            f == (s * s) * (l + 3 * s),
    ;

    // Collect the error terms against the squared length, piece by
    // piece.
    let c: int = 400_000_000;
    assert(6 * (l + 16) * s * l <= 7 * s * (l * l)) by (nonlinear_arith)
        requires
            l >= 100,
            s == 1_000_000,
    ;
    assert((s * s) * l <= 10_000_000 * (l * l)) by (nonlinear_arith)
        requires
            l >= 100_000,
            s == 1_000_000,
    ;
    assert((s * s) * (3 * s) <= 300_000_000 * (l * l)) by (nonlinear_arith)
        requires
            l >= 100_000,
            s == 1_000_000,
    ;
    assert(3 * e + f <= c * (l * l)) by (nonlinear_arith)
        requires
            e == 2 * (l + 16) * s * l + l * l,
            f == (s * s) * (l + 3 * s),
            6 * (l + 16) * s * l <= 7 * s * (l * l),
            (s * s) * l <= 10_000_000 * (l * l),
            (s * s) * (3 * s) <= 300_000_000 * (l * l),
            s == 1_000_000,
            c == 400_000_000,
    ;
    assert(big_u <= s * s + c && big_u >= s * s - c) by (nonlinear_arith)
        requires
            big_u * (l * l) - (l * l) * (s * s) <= c * (l * l),
            (l * l) * (s * s) - big_u * (l * l) <= c * (l * l),
            l >= 1,
    ;

    // Translate back to the computed squared length of the unit
    // vector: the residue is a few hundred millionths.
    assert(s * lsu <= s * s + c + 3 * s && s * lsu >= s * s - c - 3 * s);
    assert(lsu <= s + 1000 && lsu >= s - 1000);
}

impl Vec3 {
    /// The vector with the given components.
    pub fn new(x: i64, y: i64, z: i64) -> (r: Vec3)
        ensures
            r == (Vec3 { x, y, z }),
    {
        Vec3 { x, y, z }
    }

    /// Componentwise sum.
    pub fn add(&self, other: &Vec3) -> (r: Vec3)
        ensures
            r == vadd_s(*self, *other),
    {
        Vec3 {
            x: fx_add(self.x, other.x),
            y: fx_add(self.y, other.y),
            z: fx_add(self.z, other.z),
        }
    }

    /// This vector plus a scalar on every component.
    pub fn add_k(&self, k: i64) -> (r: Vec3)
        ensures
            r == vaddk_s(*self, k as int),
    {
        Vec3 { x: fx_add(self.x, k), y: fx_add(self.y, k), z: fx_add(self.z, k) }
    }

    /// Componentwise difference.
    pub fn sub(&self, other: &Vec3) -> (r: Vec3)
        ensures
            r == vsub_s(*self, *other),
    {
        Vec3 {
            x: fx_sub(self.x, other.x),
            y: fx_sub(self.y, other.y),
            z: fx_sub(self.z, other.z),
        }
    }

    /// This vector minus a scalar on every component.
    pub fn sub_k(&self, k: i64) -> (r: Vec3)
        ensures
            r == vsubk_s(*self, k as int),
    {
        Vec3 { x: fx_sub(self.x, k), y: fx_sub(self.y, k), z: fx_sub(self.z, k) }
    }

    /// Componentwise product.
    pub fn mul(&self, other: &Vec3) -> (r: Vec3)
        ensures
            r == vmul_s(*self, *other),
    {
        Vec3 {
            x: fx_mul(self.x, other.x),
            y: fx_mul(self.y, other.y),
            z: fx_mul(self.z, other.z),
        }
    }

    /// This vector scaled by a scalar.
    pub fn mul_k(&self, k: i64) -> (r: Vec3)
        ensures
            r == vmulk_s(*self, k as int),
    {
        Vec3 { x: fx_mul(self.x, k), y: fx_mul(self.y, k), z: fx_mul(self.z, k) }
    }

    /// Componentwise quotient, with the division-by-zero clamp.
    pub fn div(&self, other: &Vec3) -> (r: Vec3)
        ensures
            r == vdiv_s(*self, *other),
    {
        Vec3 {
            x: fx_div(self.x, other.x),
            y: fx_div(self.y, other.y),
            z: fx_div(self.z, other.z),
        }
    }

    /// This vector divided by a scalar, with the division-by-zero clamp.
    pub fn div_k(&self, k: i64) -> (r: Vec3)
        ensures
            r == vdivk_s(*self, k as int),
    {
        Vec3 { x: fx_div(self.x, k), y: fx_div(self.y, k), z: fx_div(self.z, k) }
    }

    /// Componentwise negation.
    pub fn neg(&self) -> (r: Vec3)
        ensures
            r == vneg_s(*self),
    {
        Vec3 { x: fx_sub(0, self.x), y: fx_sub(0, self.y), z: fx_sub(0, self.z) }
    }

    /// Dot product.
    pub fn dot(&self, other: &Vec3) -> (r: i64)
        ensures
            r as int == dot_s(*self, *other),
    {
        fx_add(
            fx_add(fx_mul(self.x, other.x), fx_mul(self.y, other.y)),
            fx_mul(self.z, other.z),
        )
    }

    /// Cross product.
    pub fn cross(&self, other: &Vec3) -> (r: Vec3)
        ensures
            r == cross_s(*self, *other),
    {
        Vec3 {
            x: fx_sub(fx_mul(self.y, other.z), fx_mul(self.z, other.y)),
            y: fx_sub(fx_mul(self.z, other.x), fx_mul(self.x, other.z)),
            z: fx_sub(fx_mul(self.x, other.y), fx_mul(self.y, other.x)),
        }
    }

    /// Squared length.
    pub fn length_squared(&self) -> (r: i64)
        ensures
            r as int == ls_s(*self),
    {
        self.dot(self)
    }

    /// Length.
    pub fn length(&self) -> (r: i64)
        ensures
            r as int == len_s(*self),
    {
        fx_sqrt(self.length_squared())
    }

    /// The unit vector in this direction (each component divided by the
    /// length, so a zero vector clamps to the sentinel).
    pub fn unit(&self) -> (r: Vec3)
        ensures
            r == unit_s(*self),
    {
        let length = self.length();
        self.div_k(length)
    }

    /// Sum of the components.
    pub fn total(&self) -> (r: i64)
        ensures
            r as int == total_s(*self),
    {
        fx_add(fx_add(self.x, self.y), self.z)
    }

    /// Tone-map this linear-light color to an 8-bit pixel, with `k`
    /// the white-point scale of the compression curve.
    pub fn colorize(&self, k: i64) -> (r: [u8; 3])
        ensures
            r@ =~= seq![
                colorize_s(*self, k as int).0,
                colorize_s(*self, k as int).1,
                colorize_s(*self, k as int).2,
            ],
    {
        let cx = tone_curve(fx_max(self.x, 0), k);
        let cy = tone_curve(fx_max(self.y, 0), k);
        let cz = tone_curve(fx_max(self.z, 0), k);
        let cx1 = spill(cx, cy, cz);
        let cy1 = spill(cy, cx1, cz);
        let cz1 = spill(cz, cx1, cy1);
        [to_byte(cx1), to_byte(cy1), to_byte(cz1)]
    }

    /// Componentwise magnitude.
    pub fn abs(&self) -> (r: Vec3)
        ensures
            r == vabs_s(*self),
    {
        Vec3 {
            x: if self.x < 0 {
                fx_sub(0, self.x)
            } else {
                self.x
            },
            y: if self.y < 0 {
                fx_sub(0, self.y)
            } else {
                self.y
            },
            z: if self.z < 0 {
                fx_sub(0, self.z)
            } else {
                self.z
            },
        }
    }
}

} // verus!
