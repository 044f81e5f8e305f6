//! Fixed-point scalar arithmetic.
//!
//! A scalar is an `i64` raw value denoting the real number `raw / FX_ONE`.
//! Every operation saturates at `FX_MIN` / `FX_MAX`, and division by zero
//! yields zero, so all operations are total; each executable function's
//! result equals its spec-level model exactly.

use vstd::prelude::*;
use vstd::math::abs;

verus! {

/// Raw value of the scalar one: the fixed-point scale.
pub const FX_ONE: i64 = 65536;
/// Raw value of the scalar one half.
pub const FX_HALF: i64 = 32768;
/// Largest representable raw value.
pub const FX_MAX: i64 = 9223372036854775807;
/// Smallest representable raw value; the range is symmetric so that
/// magnitudes of representable values always fit in a `u64`.
pub const FX_MIN: i64 = -9223372036854775807;

/// Saturate an unbounded integer into the representable raw range.
pub open spec fn spec_clip(x: int) -> int {
    if x > FX_MAX {
        FX_MAX as int
    } else if x < FX_MIN {
        FX_MIN as int
    } else {
        x
    }
}

/// Division truncated toward zero (the rounding of hardware division),
/// defined for any non-zero divisor.
pub open spec fn div_trunc(a: int, b: int) -> int {
    let q: int = abs(a) as int / abs(b) as int;
    if (a >= 0) == (b >= 0) {
        q
    } else {
        -q
    }
}

/// Model of saturating addition.
pub open spec fn spec_add(a: int, b: int) -> int {
    spec_clip(a + b)
}

/// Model of saturating subtraction.
pub open spec fn spec_sub(a: int, b: int) -> int {
    spec_clip(a - b)
}

/// Model of saturating negation.
pub open spec fn spec_neg(a: int) -> int {
    spec_clip(-a)
}

/// Model of the scaled product: `a * b / FX_ONE`, truncated toward zero,
/// then saturated.
pub open spec fn spec_mul(a: int, b: int) -> int {
    spec_clip(div_trunc(a * b, FX_ONE as int))
}

/// Model of the scaled quotient: `a * FX_ONE / b`, truncated toward zero,
/// then saturated. A zero divisor yields zero.
pub open spec fn spec_div(a: int, b: int) -> int {
    if b == 0 {
        0
    } else {
        spec_clip(div_trunc(a * FX_ONE, b))
    }
}

/// The integer square root: the greatest `r` with `r * r <= n`.
pub open spec fn isqrt(n: nat) -> nat
    decreases n,
{
    if n == 0 {
        0
    } else {
        let h: nat = 2 * isqrt(n / 4);
        if (h + 1) * (h + 1) <= n {
            h + 1
        } else {
            h
        }
    }
}

/// Model of the fixed-point square root: `isqrt(x * FX_ONE)` on raw values,
/// so that the result is again a raw value. Non-positive inputs yield zero.
pub open spec fn spec_sqrt(x: int) -> int {
    if x <= 0 {
        0
    } else {
        isqrt((x * FX_ONE) as nat) as int
    }
}

/// The magnitude of a product is the product of the magnitudes, and the
/// product is non-negative exactly when the factors agree in sign.
pub proof fn lemma_abs_mul(x: int, y: int)
    ensures
        abs(x * y) as int == abs(x) as int * abs(y) as int,
        x * y >= 0 <==> ((x >= 0 && y >= 0) || (x <= 0 && y <= 0)),
{
    if x >= 0 && y >= 0 {
        assert(x * y >= 0) by (nonlinear_arith)
            requires
                x >= 0,
                y >= 0,
        ;
    } else if x >= 0 && y < 0 {
        assert(x * y <= 0 && -(x * y) == x * (-y) && (x * y == 0 ==> x == 0))
            by (nonlinear_arith)
            requires
                x >= 0,
                y < 0,
        ;
    } else if x < 0 && y >= 0 {
        assert(x * y <= 0 && -(x * y) == (-x) * y && (x * y == 0 ==> y == 0))
            by (nonlinear_arith)
            requires
                x < 0,
                y >= 0,
        ;
    } else {
        assert(x * y >= 0 && x * y == (-x) * (-y)) by (nonlinear_arith)
            requires
                x < 0,
                y < 0,
        ;
    }
}

/// `isqrt` deserves its name: it brackets its argument between two
/// consecutive squares.
pub proof fn lemma_isqrt_bracket(n: nat)
    ensures
        isqrt(n) * isqrt(n) <= n,
        n < (isqrt(n) + 1) * (isqrt(n) + 1),
    decreases n,
{
    if n == 0 {
        let s: nat = isqrt(n);
        assert(s == 0);
        assert(n < (s + 1) * (s + 1)) by (nonlinear_arith)
            requires
                n == 0nat,
                s == 0nat,
        ;
    } else {
        let m: nat = n / 4;
        lemma_isqrt_bracket(m);
        let h: nat = isqrt(m);
        vstd::arithmetic::div_mod::lemma_fundamental_div_mod(n as int, 4);
        vstd::arithmetic::div_mod::lemma_mod_bound(n as int, 4);
        assert(4 * m <= n && n < 4 * m + 4);
        assert((2 * h) * (2 * h) <= 4 * m && 4 * m + 4 <= (2 * h + 2) * (2 * h + 2))
            by (nonlinear_arith)
            requires
                h * h <= m,
                m < (h + 1) * (h + 1),
        ;
        let hd: nat = 2 * isqrt(n / 4);
        assert(hd == 2 * h);
        if (hd + 1) * (hd + 1) <= n {
            assert(isqrt(n) == hd + 1);
            assert(n < (hd + 2) * (hd + 2));
            assert(n < (isqrt(n) + 1) * (isqrt(n) + 1));
        } else {
            assert(isqrt(n) == hd);
            assert(hd * hd <= n);
            assert(n < (hd + 1) * (hd + 1));
            assert(n < (isqrt(n) + 1) * (isqrt(n) + 1));
        }
    }
}

/// Any value bracketed between consecutive squares is the integer square
/// root.
pub proof fn lemma_isqrt_unique(n: nat, r: nat)
    requires
        r * r <= n,
        n < (r + 1) * (r + 1),
    ensures
        r == isqrt(n),
{
    lemma_isqrt_bracket(n);
    let s: nat = isqrt(n);
    if r < s {
        assert(false) by (nonlinear_arith)
            requires
                r < s,
                s * s <= n,
                n < (r + 1) * (r + 1),
        ;
    }
    if s < r {
        assert(false) by (nonlinear_arith)
            requires
                s < r,
                r * r <= n,
                n < (s + 1) * (s + 1),
        ;
    }
}

/// A product scaled down by `FX_ONE` stays below a positive left factor
/// when the right factor is below one.
pub proof fn lemma_scaled_product_below(d: int, u: int)
    requires
        1 <= d <= FX_MAX,
        0 <= u < FX_ONE,
    ensures
        0 <= spec_mul(d, u) < d,
{
    let s: int = FX_ONE as int;
    let p: int = d * u;
    vstd::arithmetic::mul::lemma_mul_nonnegative(d, u);
    assert(abs(p) as int == p);
    vstd::arithmetic::mul::lemma_mul_left_inequality(d, u, s - 1);
    vstd::arithmetic::mul::lemma_mul_is_distributive_sub(d, s, 1);
    assert(p <= d * s - d);
    vstd::arithmetic::div_mod::lemma_div_is_ordered(p, d * s - 1, s);
    vstd::arithmetic::mul::lemma_mul_is_distributive_sub_other_way(s, d, 1);
    assert((d - 1) * s + (s - 1) == d * s - 1);
    vstd::arithmetic::div_mod::lemma_fundamental_div_mod_converse(d * s - 1, s, d - 1, s - 1);
    assert((d * s - 1) / s == d - 1);
    vstd::arithmetic::div_mod::lemma_div_pos_is_pos(p, s);
    assert(0 <= p / s <= d - 1);
}

/// Multiplying two scalars from the unit interval stays in the unit
/// interval, below either factor: one scatter bounce never gains energy.
pub proof fn lemma_unit_mul(a: int, b: int)
    requires
        0 <= a <= FX_ONE,
        0 <= b <= FX_ONE,
    ensures
        0 <= spec_mul(a, b) <= a,
        spec_mul(a, b) <= b,
{
    let s: int = FX_ONE as int;
    let p: int = a * b;
    vstd::arithmetic::mul::lemma_mul_nonnegative(a, b);
    assert(abs(p) as int == p);
    vstd::arithmetic::mul::lemma_mul_inequality(b, s, a);
    vstd::arithmetic::mul::lemma_mul_is_commutative(a, b);
    vstd::arithmetic::mul::lemma_mul_is_commutative(s, a);
    assert(p <= a * s);
    vstd::arithmetic::div_mod::lemma_div_is_ordered(p, a * s, s);
    vstd::arithmetic::div_mod::lemma_div_multiples_vanish(a, s);
    vstd::arithmetic::mul::lemma_mul_is_commutative(a, s);
    assert((a * s) / s == a);
    vstd::arithmetic::mul::lemma_mul_inequality(a, s, b);
    vstd::arithmetic::mul::lemma_mul_is_commutative(s, b);
    assert(p <= b * s);
    vstd::arithmetic::div_mod::lemma_div_is_ordered(p, b * s, s);
    vstd::arithmetic::div_mod::lemma_div_multiples_vanish(b, s);
    vstd::arithmetic::mul::lemma_mul_is_commutative(b, s);
    assert((b * s) / s == b);
    vstd::arithmetic::div_mod::lemma_div_pos_is_pos(p, s);
}

/// The scaled product is monotone in its left factor, for non-negative
/// factors.
pub proof fn lemma_mul_mono(a1: int, a2: int, b: int)
    requires
        0 <= a1 <= a2,
        0 <= b,
    ensures
        spec_mul(a1, b) <= spec_mul(a2, b),
{
    let s: int = FX_ONE as int;
    vstd::arithmetic::mul::lemma_mul_nonnegative(a1, b);
    vstd::arithmetic::mul::lemma_mul_nonnegative(a2, b);
    assert(abs(a1 * b) as int == a1 * b && abs(a2 * b) as int == a2 * b);
    vstd::arithmetic::mul::lemma_mul_inequality(a1, a2, b);
    vstd::arithmetic::div_mod::lemma_div_is_ordered(a1 * b, a2 * b, s);
}

/// Clamp a value into `[lo, hi]`.
pub open spec fn spec_clamp(x: int, lo: int, hi: int) -> int {
    if x < lo {
        lo
    } else if x > hi {
        hi
    } else {
        x
    }
}

/// Truncated division is monotone in the numerator, for a positive
/// divisor.
pub proof fn lemma_div_trunc_mono(a1: int, a2: int, b: int)
    requires
        a1 <= a2,
        b > 0,
    ensures
        div_trunc(a1, b) <= div_trunc(a2, b),
{
    if a1 >= 0 {
        vstd::arithmetic::div_mod::lemma_div_is_ordered(a1, a2, b);
    } else if a2 >= 0 {
        vstd::arithmetic::div_mod::lemma_div_pos_is_pos(-a1, b);
        vstd::arithmetic::div_mod::lemma_div_pos_is_pos(a2, b);
    } else {
        vstd::arithmetic::div_mod::lemma_div_is_ordered(-a2, -a1, b);
    }
}

/// The scaled quotient is monotone in the numerator, for a non-negative
/// divisor.
pub proof fn lemma_spec_div_mono(x1: int, x2: int, b: int)
    requires
        x1 <= x2,
        0 <= b,
    ensures
        spec_div(x1, b) <= spec_div(x2, b),
{
    if b != 0 {
        vstd::arithmetic::mul::lemma_mul_inequality(x1, x2, FX_ONE as int);
        lemma_div_trunc_mono(x1 * FX_ONE, x2 * FX_ONE, b);
    }
}

/// A proper fraction of non-negative values stays below one.
pub proof fn lemma_div_frac_below(a: int, b: int)
    requires
        0 <= a < b,
    ensures
        0 <= spec_div(a, b) < FX_ONE,
{
    let s: int = FX_ONE as int;
    vstd::arithmetic::mul::lemma_mul_nonnegative(a, s);
    assert(abs(a * s) as int == a * s && abs(b) as int == b);
    vstd::arithmetic::mul::lemma_mul_inequality(a, b - 1, s);
    vstd::arithmetic::mul::lemma_mul_is_distributive_sub_other_way(s, b, 1);
    assert(a * s <= b * s - s);
    vstd::arithmetic::div_mod::lemma_div_is_ordered(a * s, b * s - 1, b);
    vstd::arithmetic::mul::lemma_mul_is_distributive_sub_other_way(b, s, 1);
    assert((s - 1) * b + (b - 1) == b * s - 1);
    vstd::arithmetic::div_mod::lemma_fundamental_div_mod_converse(b * s - 1, b, s - 1, b - 1);
    assert((b * s - 1) / b == s - 1);
    vstd::arithmetic::div_mod::lemma_div_pos_is_pos(a * s, b);
}

/// A scalar times itself is non-negative.
pub proof fn lemma_square_nonneg(x: int)
    ensures
        spec_mul(x, x) >= 0,
{
    lemma_abs_mul(x, x);
    vstd::arithmetic::div_mod::lemma_div_pos_is_pos(x * x, FX_ONE as int);
}

/// The square of a scalar with magnitude at most one stays in the unit
/// interval, and squaring only sees the magnitude.
pub proof fn lemma_square_le_one(x: int)
    requires
        -FX_ONE <= x <= FX_ONE,
    ensures
        0 <= spec_mul(x, x) <= FX_ONE,
{
    lemma_abs_mul(x, x);
    lemma_square_nonneg(x);
    let m: int = abs(x) as int;
    vstd::arithmetic::mul::lemma_mul_nonnegative(m, m);
    assert(abs(m * m) as int == m * m);
    lemma_unit_mul(m, m);
    assert(div_trunc(x * x, FX_ONE as int) == div_trunc(m * m, FX_ONE as int));
}

/// Model of the magnitude of a raw value, saturated (the magnitude of
/// `i64::MIN` exceeds the raw range).
pub open spec fn spec_abs(a: int) -> int {
    spec_clip(abs(a) as int)
}

/// Saturate a wide intermediate into the raw range.
fn clip128(x: i128) -> (r: i64)
    ensures
        r as int == spec_clip(x as int),
{
    if x > 9223372036854775807i128 {
        FX_MAX
    } else if x < -9223372036854775807i128 {
        FX_MIN
    } else {
        x as i64
    }
}

/// The magnitude of a raw value, as an unsigned integer so that
/// `i64::MIN` needs no special case.
fn abs_mag(a: i64) -> (r: u64)
    ensures
        r as int == abs(a as int) as int,
{
    if a >= 0 {
        a as u64
    } else {
        let w: i128 = -(a as i128);
        w as u64
    }
}

/// Saturating addition of raw values.
pub fn fx_add(a: i64, b: i64) -> (r: i64)
    ensures
        r as int == spec_add(a as int, b as int),
{
    clip128(a as i128 + b as i128)
}

/// Saturating subtraction of raw values.
pub fn fx_sub(a: i64, b: i64) -> (r: i64)
    ensures
        r as int == spec_sub(a as int, b as int),
{
    clip128(a as i128 - b as i128)
}

/// Saturating negation of a raw value.
pub fn fx_neg(a: i64) -> (r: i64)
    ensures
        r as int == spec_neg(a as int),
{
    clip128(-(a as i128))
}

/// Scaled product of raw values: computes `a * b / FX_ONE` truncated toward
/// zero, saturated into the raw range.
pub fn fx_mul(a: i64, b: i64) -> (r: i64)
    ensures
        r as int == spec_mul(a as int, b as int),
{
    let ma: u128 = abs_mag(a) as u128;
    let mb: u128 = abs_mag(b) as u128;
    proof {
        assert(ma * mb <= 0x8000_0000_0000_0000u128 * 0x8000_0000_0000_0000u128)
            by (nonlinear_arith)
            requires
                ma <= 0x8000_0000_0000_0000u128,
                mb <= 0x8000_0000_0000_0000u128,
        ;
        lemma_abs_mul(a as int, b as int);
    }
    let p: u128 = ma * mb;
    let q: u128 = p / 65536;
    let neg: bool = (a < 0) != (b < 0);
    proof {
        assert(q as int == abs(a as int * b as int) as int / (FX_ONE as int));
        if a as int * b as int == 0 {
            assert(q == 0);
        }
    }
    if neg {
        if q >= 9223372036854775807u128 {
            FX_MIN
        } else {
            -(q as i64)
        }
    } else {
        if q >= 9223372036854775807u128 {
            FX_MAX
        } else {
            q as i64
        }
    }
}

/// Scaled quotient of raw values: computes `a * FX_ONE / b` truncated toward
/// zero, saturated into the raw range; zero when `b` is zero.
pub fn fx_div(a: i64, b: i64) -> (r: i64)
    ensures
        r as int == spec_div(a as int, b as int),
{
    if b == 0 {
        return 0;
    }
    let ma: u128 = abs_mag(a) as u128;
    let mb: u128 = abs_mag(b) as u128;
    let n: u128 = ma * 65536;
    proof {
        lemma_abs_mul(a as int, FX_ONE as int);
        assert(n as int == abs(a as int * FX_ONE) as int);
        assert(mb != 0);
    }
    let q: u128 = n / mb;
    let neg: bool = (a < 0) != (b < 0);
    proof {
        assert(q as int == abs(a as int * FX_ONE) as int / abs(b as int) as int);
        if a as int * FX_ONE == 0 {
            assert(q == 0);
        }
    }
    if neg {
        if q >= 9223372036854775807u128 {
            FX_MIN
        } else {
            -(q as i64)
        }
    } else {
        if q >= 9223372036854775807u128 {
            FX_MAX
        } else {
            q as i64
        }
    }
}

/// The smaller of two raw values.
pub fn fx_min(a: i64, b: i64) -> (r: i64)
    ensures
        r as int == vstd::math::min(a as int, b as int),
{
    if a <= b {
        a
    } else {
        b
    }
}

/// The larger of two raw values.
pub fn fx_max(a: i64, b: i64) -> (r: i64)
    ensures
        r as int == vstd::math::max(a as int, b as int),
{
    if a >= b {
        a
    } else {
        b
    }
}

/// Clamp a raw value into `[lo, hi]`.
pub fn fx_clamp(x: i64, lo: i64, hi: i64) -> (r: i64)
    ensures
        r as int == spec_clamp(x as int, lo as int, hi as int),
{
    if x < lo {
        lo
    } else if x > hi {
        hi
    } else {
        x
    }
}

/// The magnitude of a raw value, saturated.
pub fn fx_abs(a: i64) -> (r: i64)
    ensures
        r as int == spec_abs(a as int),
{
    if a >= 0 {
        a
    } else {
        clip128(-(a as i128))
    }
}

/// The integer square root of an arbitrary `u128`, by bisection.
fn isqrt_u128(n: u128) -> (r: u128)
    ensures
        r as int == isqrt(n as nat) as int,
{
    let mut lo: u128 = 0;
    let mut hi: u128 = 0x1_0000_0000_0000_0000u128;
    proof {
        assert((hi as int) * (hi as int) > u128::MAX as int) by (nonlinear_arith)
            requires
                hi == 0x1_0000_0000_0000_0000u128,
        ;
    }
    while lo + 1 < hi
        invariant
            lo < hi,
            hi <= 0x1_0000_0000_0000_0000u128,
            (lo as int) * (lo as int) <= n as int,
            (n as int) < (hi as int) * (hi as int),
        decreases hi - lo,
    {
        let mid: u128 = lo + (hi - lo) / 2;
        proof {
            assert(mid * mid <= u128::MAX) by (nonlinear_arith)
                requires
                    mid < 0x1_0000_0000_0000_0000u128,
            ;
        }
        if mid * mid <= n {
            lo = mid;
        } else {
            hi = mid;
        }
    }
    proof {
        lemma_isqrt_unique(n as nat, lo as nat);
    }
    lo
}

/// Fixed-point square root of a raw value: zero for non-positive inputs,
/// `isqrt(x * FX_ONE)` otherwise.
pub fn fx_sqrt(x: i64) -> (r: i64)
    ensures
        r as int == spec_sqrt(x as int),
{
    if x <= 0 {
        return 0;
    }
    let n: u128 = (x as u128) * 65536;
    let r: u128 = isqrt_u128(n);
    proof {
        lemma_isqrt_bracket(n as nat);
        assert(r as int * r as int <= n as int);
        assert(r < 0x1_0000_0000_0000u128) by (nonlinear_arith)
            requires
                r as int * r as int <= n as int,
                n < 0x1_0000_0000_0000_0000_0000_0000u128,
        ;
    }
    r as i64
}

} // verus!
