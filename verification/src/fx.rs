//! Fixed-point scalars: a real number is held in an `i64` as a count of
//! millionths. Every operation is total: results are saturated into
//! `[-FX_MAX, FX_MAX]`, and division by zero is clamped to the large
//! positive sentinel `FX_MAX` rather than propagating an error, so no
//! non-finite value can ever enter a comparison. Each executable
//! operation returns exactly what its integer specification says.

use vstd::prelude::*;

verus! {

/// The fixed-point scale: the representation of the real number 1.
pub const ONE: i64 = 1_000_000;

/// Largest representable magnitude; also the sentinel that a division by
/// zero is clamped to.
pub const FX_MAX: i64 = i64::MAX;

/// Magnitude of an integer.
pub open spec fn mag(v: int) -> int {
    if v < 0 {
        -v
    } else {
        v
    }
}

/// Saturation into the symmetric representable range.
pub open spec fn sat(v: int) -> int {
    if v > FX_MAX as int {
        FX_MAX as int
    } else if v < -(FX_MAX as int) {
        -(FX_MAX as int)
    } else {
        v
    }
}

/// Quotient `p / d` rounded half up, for `p >= 0`, `d > 0`.
pub open spec fn half_up(p: int, d: int) -> int {
    (p + d / 2) / d
}

/// Quotient `p / d` rounded to nearest, half away from zero, for `d > 0`.
pub open spec fn round_div(p: int, d: int) -> int {
    if p >= 0 {
        half_up(p, d)
    } else {
        -half_up(-p, d)
    }
}

/// What fixed-point addition returns.
pub open spec fn add_s(a: int, b: int) -> int {
    sat(a + b)
}

/// What fixed-point subtraction returns.
pub open spec fn sub_s(a: int, b: int) -> int {
    sat(a - b)
}

/// What fixed-point multiplication returns: the product rescaled by the
/// fixed-point unit, rounded to nearest.
pub open spec fn mul_s(a: int, b: int) -> int {
    sat(round_div(a * b, ONE as int))
}

/// What fixed-point division returns: rounded to nearest, with the
/// divide-by-zero sentinel.
pub open spec fn div_s(a: int, b: int) -> int {
    if b == 0 {
        FX_MAX as int
    } else {
        let m = half_up(mag(a) * (ONE as int), mag(b));
        sat(
            if (a < 0) != (b < 0) {
                -m
            } else {
                m
            },
        )
    }
}

/// `f` is the integer square root (floor) of `v`.
pub open spec fn is_sqrt_floor(v: nat, f: nat) -> bool {
    f * f <= v < (f + 1) * (f + 1)
}

/// The integer square root (floor) of `v`.
pub open spec fn sqrt_floor(v: nat) -> nat {
    choose|f: nat| is_sqrt_floor(v, f)
}

/// What fixed-point square root returns: the root of the rescaled value,
/// rounded to nearest; non-positive inputs give zero.
pub open spec fn sqrt_s(x: int) -> int {
    if x <= 0 {
        0
    } else {
        let v = (x * ONE) as nat;
        let f = sqrt_floor(v);
        if v - f * f > f {
            f as int + 1
        } else {
            f as int
        }
    }
}

/// The product of two `i64`-range factors stays within `2^126`.
proof fn lemma_i64_product_bound(a: int, b: int)
    by (nonlinear_arith)
    requires
        -0x8000_0000_0000_0000 <= a <= 0x7fff_ffff_ffff_ffff,
        -0x8000_0000_0000_0000 <= b <= 0x7fff_ffff_ffff_ffff,
    ensures
        -0x4000_0000_0000_0000_0000_0000_0000_0000 <= a * b
            <= 0x4000_0000_0000_0000_0000_0000_0000_0000,
{
}

/// An integer square root exists for every value.
proof fn lemma_sqrt_floor_exists(v: nat)
    ensures
        is_sqrt_floor(v, sqrt_floor(v)),
    decreases v,
{
    if v == 0 {
        assert((0nat + 1) * (0nat + 1) == 1) by (nonlinear_arith);
        assert(is_sqrt_floor(0, 0));
    } else {
        lemma_sqrt_floor_exists((v - 1) as nat);
        let f = sqrt_floor((v - 1) as nat);
        if (f + 1) * (f + 1) <= v {
            assert(v - 1 < (f + 1) * (f + 1));
            assert(is_sqrt_floor(v, f + 1)) by (nonlinear_arith)
                requires
                    (f + 1) * (f + 1) <= v,
                    v <= (f + 1) * (f + 1),
            ;
        } else {
            assert(is_sqrt_floor(v, f));
        }
    }
}

/// The integer square root is unique.
proof fn lemma_sqrt_floor_unique(v: nat, f: nat)
    requires
        is_sqrt_floor(v, f),
    ensures
        sqrt_floor(v) == f,
{
    lemma_sqrt_floor_exists(v);
    let g = sqrt_floor(v);
    assert(f == g) by (nonlinear_arith)
        requires
            f * f <= v < (f + 1) * (f + 1),
            g * g <= v < (g + 1) * (g + 1),
    ;
}

/// Multiplying non-negative values gives a non-negative result.
pub proof fn lemma_mul_s_nonneg(a: int, b: int)
    requires
        a >= 0,
        b >= 0,
    ensures
        mul_s(a, b) >= 0,
{
    assert(a * b >= 0) by (nonlinear_arith)
        requires
            a >= 0,
            b >= 0,
    ;
    vstd::arithmetic::div_mod::lemma_div_is_ordered(0, a * b + 500_000, 1_000_000);
}

/// Dividing non-negative values gives a non-negative result.
pub proof fn lemma_div_s_nonneg(a: int, b: int)
    requires
        a >= 0,
        b >= 0,
    ensures
        div_s(a, b) >= 0,
{
    if b != 0 {
        assert(mag(a) * (ONE as int) >= 0) by (nonlinear_arith)
            requires
                mag(a) >= 0,
        ;
        vstd::arithmetic::div_mod::lemma_div_is_ordered(
            0,
            mag(a) * (ONE as int) + mag(b) / 2,
            mag(b),
        );
    }
}

/// For products far from the representation's edge, multiplication
/// does not saturate and lands within half a unit of the exact
/// rescaled product.
pub proof fn lemma_mul_s_round(a: int, b: int)
    requires
        -9_000_000_000_000_000_000_000_000 <= a * b <= 9_000_000_000_000_000_000_000_000,
    ensures
        (ONE as int) * mul_s(a, b) - a * b <= 500_000,
        a * b - (ONE as int) * mul_s(a, b) <= 500_000,
{
    let p = a * b;
    if p >= 0 {
        let q = half_up(p, ONE as int);
        vstd::arithmetic::div_mod::lemma_fundamental_div_mod(p + 500_000, 1_000_000);
        vstd::arithmetic::div_mod::lemma_mod_bound(p + 500_000, 1_000_000);
        assert((ONE as int) * q - p <= 500_000);
        assert(p - (ONE as int) * q <= 500_000);
        assert(q <= FX_MAX as int);
        assert(q >= 0) by {
            vstd::arithmetic::div_mod::lemma_div_is_ordered(0, p + 500_000, 1_000_000);
        }
        assert(mul_s(a, b) == q);
    } else {
        let q = half_up(-p, ONE as int);
        vstd::arithmetic::div_mod::lemma_fundamental_div_mod((-p) + 500_000, 1_000_000);
        vstd::arithmetic::div_mod::lemma_mod_bound((-p) + 500_000, 1_000_000);
        assert((ONE as int) * q - (-p) <= 500_000);
        assert((-p) - (ONE as int) * q <= 500_000);
        assert(q <= FX_MAX as int);
        assert(q >= 0) by {
            vstd::arithmetic::div_mod::lemma_div_is_ordered(0, (-p) + 500_000, 1_000_000);
        }
        assert(mul_s(a, b) == -q);
    }
}

/// A square never multiplies to a negative value.
pub proof fn lemma_mul_s_square_nonneg(a: int)
    ensures
        mul_s(a, a) >= 0,
{
    assert(a * a >= 0) by (nonlinear_arith);
    vstd::arithmetic::div_mod::lemma_div_is_ordered(0, a * a + 500_000, 1_000_000);
}

/// For moderate numerators and positive denominators, division does
/// not saturate and its result times the denominator lands within one
/// denominator of the exact rescaled numerator.
pub proof fn lemma_div_s_round(a: int, b: int)
    requires
        -3_000_000_000_000 <= a <= 3_000_000_000_000,
        100_000 <= b <= 9_000_000_000_000_000,
    ensures
        div_s(a, b) * b - a * (ONE as int) <= b,
        a * (ONE as int) - div_s(a, b) * b <= b,
{
    let m = half_up(mag(a) * (ONE as int), mag(b));
    vstd::arithmetic::div_mod::lemma_fundamental_div_mod(
        mag(a) * (ONE as int) + mag(b) / 2,
        mag(b),
    );
    vstd::arithmetic::div_mod::lemma_mod_bound(mag(a) * (ONE as int) + mag(b) / 2, mag(b));
    vstd::arithmetic::div_mod::lemma_div_is_ordered(0, mag(b), 2);
    assert(mag(b) * m <= mag(a) * (ONE as int) + mag(b) / 2);
    assert(mag(a) * (ONE as int) <= 3_000_000_000_000 * 1_000_000) by (nonlinear_arith)
        requires
            0 <= mag(a) <= 3_000_000_000_000,
    ;
    assert(m >= 0) by {
        vstd::arithmetic::div_mod::lemma_div_is_ordered(
            0,
            mag(a) * (ONE as int) + mag(b) / 2,
            mag(b),
        );
    }
    assert(m <= 31_000_000_000_000) by (nonlinear_arith)
        requires
            mag(b) * m <= mag(a) * (ONE as int) + mag(b) / 2,
            mag(a) * (ONE as int) <= 3_000_000_000_000_000_000,
            100_000 <= mag(b) <= 9_000_000_000_000_000,
            m >= 0,
    ;
    assert(-(mag(b)) <= mag(b) * m - mag(a) * (ONE as int) <= mag(b));
    if (a < 0) != (b < 0) {
        assert(div_s(a, b) == -m);
        assert((-m) * b - a * (ONE as int) <= b && a * (ONE as int) - (-m) * b <= b)
            by (nonlinear_arith)
            requires
                -(mag(b)) <= mag(b) * m - mag(a) * (ONE as int) <= mag(b),
                mag(a) == if a < 0 { -a } else { a },
                mag(b) == if b < 0 { -b } else { b },
                b >= 100_000,
                (a < 0) != (b < 0),
        ;
    } else {
        assert(div_s(a, b) == m);
        assert(m * b - a * (ONE as int) <= b && a * (ONE as int) - m * b <= b)
            by (nonlinear_arith)
            requires
                -(mag(b)) <= mag(b) * m - mag(a) * (ONE as int) <= mag(b),
                mag(a) == if a < 0 { -a } else { a },
                mag(b) == if b < 0 { -b } else { b },
                b >= 100_000,
                !((a < 0) != (b < 0)),
        ;
    }
}

/// The rounded square root brackets its argument: the square of the
/// root differs from the rescaled argument by at most the root.
pub proof fn lemma_sqrt_s_bracket(x: int)
    requires
        1 <= x <= FX_MAX as int,
    ensures
        1 <= sqrt_s(x) <= 0x4_0000_0000_0000,
        sqrt_s(x) * sqrt_s(x) - x * (ONE as int) <= sqrt_s(x),
        x * (ONE as int) - sqrt_s(x) * sqrt_s(x) <= sqrt_s(x),
{
    let v = (x * ONE) as nat;
    lemma_sqrt_floor_exists(v);
    let f = sqrt_floor(v);
    assert(f >= 1) by (nonlinear_arith)
        requires
            f * f <= v < (f + 1) * (f + 1),
            v >= 1_000_000,
    ;
    assert(v < 0x8000_0000_0000_0000_0000_0000 as nat);
    assert(f < 0x4_0000_0000_0000) by (nonlinear_arith)
        requires
            f * f <= v,
            v < 0x8000_0000_0000_0000_0000_0000 as nat,
    ;
    let l = sqrt_s(x);
    if v - f * f > f {
        assert(l == f + 1);
        assert(l * l - v <= l && v - l * l <= l) by (nonlinear_arith)
            requires
                l == f + 1,
                f * f <= v < (f + 1) * (f + 1),
                v - f * f > f,
        ;
    } else {
        assert(l == f);
        assert(l * l - v <= l && v - l * l <= l) by (nonlinear_arith)
            requires
                l == f,
                f * f <= v,
                v - f * f <= f,
        ;
    }
}

/// A squared length of at least a hundredth has a length of at least
/// a tenth.
pub proof fn lemma_sqrt_s_tenth(x: int)
    requires
        10_000 <= x <= FX_MAX as int,
    ensures
        sqrt_s(x) >= 100_000,
{
    lemma_sqrt_s_bracket(x);
    let l = sqrt_s(x);
    assert(l >= 100_000) by (nonlinear_arith)
        requires
            l * l - x * 1_000_000 >= -l,
            x >= 10_000,
            l >= 1,
    ;
}

/// Dividing an exact non-negative multiple of a positive count by
/// that count (as a fixed-point scalar) is exact.
pub proof fn lemma_div_s_exact_multiple(c: int, n: int)
    requires
        0 <= c <= FX_MAX as int,
        1 <= n,
        c * n <= FX_MAX as int,
    ensures
        div_s(c * n, n * (ONE as int)) == c,
{
    let d = n * (ONE as int);
    assert(d >= 1_000_000) by (nonlinear_arith)
        requires
            n >= 1,
            d == n * 1_000_000,
    ;
    assert(c * n >= 0) by (nonlinear_arith)
        requires
            c >= 0,
            n >= 1,
    ;
    assert((c * n) * (ONE as int) == d * c) by (nonlinear_arith)
        requires
            d == n * (ONE as int),
    ;
    vstd::arithmetic::div_mod::lemma_fundamental_div_mod(d, 2);
    vstd::arithmetic::div_mod::lemma_mod_bound(d, 2);
    assert(0 <= d / 2 < d);
    vstd::arithmetic::div_mod::lemma_div_multiples_vanish_fancy(c, d / 2, d);
    assert(half_up(mag(c * n) * (ONE as int), mag(d)) == c);
}

/// Saturating fixed-point addition.
pub fn fx_add(a: i64, b: i64) -> (r: i64)
    ensures
        r as int == add_s(a as int, b as int),
{
    let s: i128 = a as i128 + b as i128;
    if s > FX_MAX as i128 {
        FX_MAX
    } else if s < -(FX_MAX as i128) {
        -FX_MAX
    } else {
        s as i64
    }
}

/// Saturating fixed-point subtraction.
pub fn fx_sub(a: i64, b: i64) -> (r: i64)
    ensures
        r as int == sub_s(a as int, b as int),
{
    let s: i128 = a as i128 - b as i128;
    if s > FX_MAX as i128 {
        FX_MAX
    } else if s < -(FX_MAX as i128) {
        -FX_MAX
    } else {
        s as i64
    }
}

/// Saturating fixed-point multiplication, rounded to nearest.
pub fn fx_mul(a: i64, b: i64) -> (r: i64)
    ensures
        r as int == mul_s(a as int, b as int),
{
    proof {
        lemma_i64_product_bound(a as int, b as int);
    }
    let p: i128 = (a as i128) * (b as i128);
    let neg: bool = p < 0;
    let m: u128 = if neg {
        (-p) as u128
    } else {
        p as u128
    };
    let q: u128 = (m + (ONE as u128) / 2) / (ONE as u128);
    assert(q <= m + (ONE as u128) / 2);
    let v: i128 = if neg {
        -(q as i128)
    } else {
        q as i128
    };
    if v > FX_MAX as i128 {
        FX_MAX
    } else if v < -(FX_MAX as i128) {
        -FX_MAX
    } else {
        v as i64
    }
}

/// Saturating fixed-point division, rounded to nearest; division by zero
/// yields the `FX_MAX` sentinel.
pub fn fx_div(a: i64, b: i64) -> (r: i64)
    ensures
        r as int == div_s(a as int, b as int),
{
    if b == 0 {
        return FX_MAX;
    }
    let am: u128 = if a < 0 {
        (-(a as i128)) as u128
    } else {
        a as u128
    };
    let bm: u128 = if b < 0 {
        (-(b as i128)) as u128
    } else {
        b as u128
    };
    assert(am <= 0x8000_0000_0000_0000 && bm <= 0x8000_0000_0000_0000);
    assert(am * (ONE as u128) <= 0x8000_0000_0000_0000 * 1_000_000) by (nonlinear_arith)
        requires
            am <= 0x8000_0000_0000_0000,
    ;
    let q: u128 = (am * (ONE as u128) + bm / 2) / bm;
    assert(q * bm <= am * (ONE as u128) + bm / 2) by {
        vstd::arithmetic::div_mod::lemma_fundamental_div_mod(
            (am * (ONE as u128) + bm / 2) as int,
            bm as int,
        );
    }
    assert(q <= am * (ONE as u128) + bm / 2) by (nonlinear_arith)
        requires
            q * bm <= am * (ONE as u128) + bm / 2,
            bm >= 1,
            q >= 0,
    ;
    let neg: bool = (a < 0) != (b < 0);
    let v: i128 = if neg {
        -(q as i128)
    } else {
        q as i128
    };
    if v > FX_MAX as i128 {
        FX_MAX
    } else if v < -(FX_MAX as i128) {
        -FX_MAX
    } else {
        v as i64
    }
}

/// Fixed-point square root, rounded to nearest; non-positive inputs give
/// zero.
pub fn fx_sqrt(x: i64) -> (r: i64)
    ensures
        r as int == sqrt_s(x as int),
{
    if x <= 0 {
        return 0;
    }
    assert((x as u128) <= 0x7fff_ffff_ffff_ffff);
    assert((x as u128) * (ONE as u128) <= 0x7fff_ffff_ffff_ffff * 1_000_000) by (nonlinear_arith)
        requires
            (x as u128) <= 0x7fff_ffff_ffff_ffff,
    ;
    let v: u128 = (x as u128) * (ONE as u128);
    let mut lo: u128 = 0;
    let mut hi: u128 = 0x400_0000_0000;
    assert((0x400_0000_0000 as int) * (0x400_0000_0000 as int) > v as int);
    while lo + 1 < hi
        invariant
            (lo * lo) as nat <= v as nat,
            (v as nat) < (hi * hi) as nat,
            lo < hi,
            hi <= 0x400_0000_0000,
        decreases hi - lo,
    {
        let mid: u128 = lo + (hi - lo) / 2;
        assert(lo < mid < hi);
        assert(mid * mid <= 0x400_0000_0000 * 0x400_0000_0000) by (nonlinear_arith)
            requires
                mid <= 0x400_0000_0000,
        ;
        if mid * mid <= v {
            lo = mid;
        } else {
            hi = mid;
        }
    }
    proof {
        assert(hi == lo + 1);
        lemma_sqrt_floor_unique(v as nat, lo as nat);
    }
    let r0: u128 = if v - lo * lo > lo {
        lo + 1
    } else {
        lo
    };
    r0 as i64
}

/// The smaller of two fixed-point values.
pub fn fx_min(a: i64, b: i64) -> (r: i64)
    ensures
        r == if a as int <= b as int {
            a
        } else {
            b
        },
{
    if a <= b {
        a
    } else {
        b
    }
}

/// The larger of two fixed-point values.
pub fn fx_max(a: i64, b: i64) -> (r: i64)
    ensures
        r == if a as int >= b as int {
            a
        } else {
            b
        },
{
    if a >= b {
        a
    } else {
        b
    }
}

} // verus!
