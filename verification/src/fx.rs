//! Saturating fixed-point arithmetic over `i64` raw ticks.
//!
//! Every executable operation here is total and is specified exactly by a
//! spec-level twin, so the solver built on top of them has a complete
//! mathematical model: `SCALE` raw ticks make one coordinate unit, products
//! and quotients are rounded toward zero, and results out of the `i64` range
//! saturate.

use vstd::prelude::*;

verus! {

use crate::SCALE;

/// Absolute value of a mathematical integer.
pub open spec fn iabs(x: int) -> int {
    if x < 0 {
        -x
    } else {
        x
    }
}

/// Quotient of `a / b` rounded toward zero, as machine division rounds.
pub open spec fn div_toward_zero(a: int, b: int) -> int
    recommends
        b != 0,
{
    if (a < 0) == (b < 0) {
        iabs(a) / iabs(b)
    } else {
        -(iabs(a) / iabs(b))
    }
}

/// Clamp a mathematical integer into the `i64` range.
pub open spec fn sat64(x: int) -> i64 {
    if x > i64::MAX {
        i64::MAX
    } else if x < i64::MIN {
        i64::MIN
    } else {
        x as i64
    }
}

/// Saturating narrowing of a double-width intermediate to `i64`.
pub fn sat_from_i128(v: i128) -> (r: i64)
    ensures
        r == sat64(v as int),
{
    if v > i64::MAX as i128 {
        i64::MAX
    } else if v < i64::MIN as i128 {
        i64::MIN
    } else {
        v as i64
    }
}

/// Truncating division on double-width intermediates, computed over
/// magnitudes so that the rounding direction is toward zero.
pub fn div_i128_toward_zero(a: i128, b: i128) -> (r: i128)
    requires
        b != 0,
        a > i128::MIN,
        b > i128::MIN,
    ensures
        r as int == div_toward_zero(a as int, b as int),
{
    let an: u128 = if a < 0 {
        (-a) as u128
    } else {
        a as u128
    };
    let bn: u128 = if b < 0 {
        (-b) as u128
    } else {
        b as u128
    };
    let q: u128 = an / bn;
    proof {
        assert(an as int == iabs(a as int));
        assert(bn as int == iabs(b as int));
        vstd::arithmetic::div_mod::lemma_fundamental_div_mod(an as int, bn as int);
        assert(q <= an) by (nonlinear_arith)
            requires
                q as int * bn as int <= an as int,
                bn >= 1,
                q >= 0,
        ;
    }
    if (a < 0) != (b < 0) {
        -(q as i128)
    } else {
        q as i128
    }
}

/// `a + b`, saturated to the `i64` range.
pub open spec fn sat_add_s(a: i64, b: i64) -> i64 {
    sat64(a + b)
}

/// Executable twin of [`sat_add_s`].
pub fn sat_add(a: i64, b: i64) -> (r: i64)
    ensures
        r == sat_add_s(a, b),
{
    sat_from_i128(a as i128 + b as i128)
}

/// `a - b`, saturated to the `i64` range.
pub open spec fn sat_sub_s(a: i64, b: i64) -> i64 {
    sat64(a - b)
}

/// Executable twin of [`sat_sub_s`].
pub fn sat_sub(a: i64, b: i64) -> (r: i64)
    ensures
        r == sat_sub_s(a, b),
{
    sat_from_i128(a as i128 - b as i128)
}

/// `-a`, saturated to the `i64` range.
pub open spec fn sat_neg_s(a: i64) -> i64 {
    sat64(-a)
}

/// Executable twin of [`sat_neg_s`].
pub fn sat_neg(a: i64) -> (r: i64)
    ensures
        r == sat_neg_s(a),
{
    sat_from_i128(-(a as i128))
}

/// `|a|`, saturated to the `i64` range.
pub open spec fn sat_abs_s(a: i64) -> i64 {
    sat64(iabs(a as int))
}

/// Executable twin of [`sat_abs_s`].
pub fn sat_abs(a: i64) -> (r: i64)
    ensures
        r == sat_abs_s(a),
{
    if a < 0 {
        sat_from_i128(-(a as i128))
    } else {
        a
    }
}

/// Fixed-point product: the double-width product of the raw ticks, divided by
/// `SCALE` with rounding toward zero, then saturated.
pub open spec fn fx_mul_s(a: i64, b: i64) -> i64 {
    sat64(div_toward_zero(a as int * b as int, SCALE as int))
}

/// Executable twin of [`fx_mul_s`].
pub fn fx_mul(a: i64, b: i64) -> (r: i64)
    ensures
        r == fx_mul_s(a, b),
{
    proof {
        assert(i128::MIN < (a as int) * (b as int) <= i128::MAX) by (nonlinear_arith)
            requires
                i64::MIN <= a <= i64::MAX,
                i64::MIN <= b <= i64::MAX,
        ;
    }
    let p: i128 = (a as i128) * (b as i128);
    let q = div_i128_toward_zero(p, SCALE as i128);
    sat_from_i128(q)
}

/// Fixed-point quotient: `a * SCALE / b` with rounding toward zero, then
/// saturated; a zero divisor yields zero, so the operation is total.
pub open spec fn fx_div_s(a: i64, b: i64) -> i64 {
    if b == 0 {
        0
    } else {
        sat64(div_toward_zero(a as int * SCALE as int, b as int))
    }
}

/// Executable twin of [`fx_div_s`].
pub fn fx_div(a: i64, b: i64) -> (r: i64)
    ensures
        r == fx_div_s(a, b),
{
    if b == 0 {
        0
    } else {
        proof {
            assert(i128::MIN < (a as int) * (SCALE as int) <= i128::MAX) by (nonlinear_arith)
                requires
                    i64::MIN <= a <= i64::MAX,
                    SCALE == 1_000_000,
            ;
        }
        let p: i128 = (a as i128) * (SCALE as i128);
        let q = div_i128_toward_zero(p, b as i128);
        sat_from_i128(q)
    }
}

/// Quotient of a raw tick count by a positive count, rounded toward zero.
/// Division by a nonpositive count yields zero, so the operation is total.
pub open spec fn div_count_s(a: i64, n: int) -> i64 {
    if n <= 0 {
        0
    } else {
        sat64(div_toward_zero(a as int, n))
    }
}

/// Executable twin of [`div_count_s`].
pub fn div_count(a: i64, n: usize) -> (r: i64)
    ensures
        r == div_count_s(a, n as int),
{
    if n == 0 {
        0
    } else {
        let q = div_i128_toward_zero(a as i128, n as i128);
        sat_from_i128(q)
    }
}

/// A zero factor yields a zero fixed-point product.
pub proof fn lemma_fx_mul_zero(a: i64)
    ensures
        fx_mul_s(a, 0) == 0,
        fx_mul_s(0, a) == 0,
{
    assert((a as int) * 0int == 0 && 0int * (a as int) == 0) by (nonlinear_arith);
    assert(div_toward_zero(0, SCALE as int) == 0);
}

/// A zero dividend yields a zero fixed-point quotient.
pub proof fn lemma_fx_div_zero(b: i64)
    ensures
        fx_div_s(0, b) == 0,
{
    if b != 0 {
        assert(0int * (SCALE as int) == 0) by (nonlinear_arith);
        vstd::arithmetic::div_mod::lemma_div_of0(iabs(b as int));
    }
}

/// Floor of the square root of a natural number.
pub open spec fn sqrt_floor(n: nat) -> nat
    decreases n,
{
    if n == 0 {
        0
    } else {
        let r = sqrt_floor((n - 1) as nat);
        if (r + 1) * (r + 1) <= n {
            r + 1
        } else {
            r
        }
    }
}

/// The defining bracket of [`sqrt_floor`]: its square is at most `n`, and the
/// next square is above `n`.
pub proof fn lemma_sqrt_floor_bracket(n: nat)
    ensures
        sqrt_floor(n) * sqrt_floor(n) <= n,
        n < (sqrt_floor(n) + 1) * (sqrt_floor(n) + 1),
    decreases n,
{
    if n == 0 {
        assert(sqrt_floor(0) == 0);
        assert(n < (sqrt_floor(n) + 1) * (sqrt_floor(n) + 1)) by (nonlinear_arith)
            requires
                n == 0,
                sqrt_floor(n) == 0,
        ;
    } else {
        lemma_sqrt_floor_bracket((n - 1) as nat);
        let r = sqrt_floor((n - 1) as nat);
        assert(r * r <= n - 1);
        assert(n - 1 < (r + 1) * (r + 1));
        if (r + 1) * (r + 1) <= n {
            assert(sqrt_floor(n) == r + 1);
            assert(n < ((r + 1) + 1) * ((r + 1) + 1)) by (nonlinear_arith)
                requires
                    n - 1 < (r + 1) * (r + 1),
            ;
            assert(n < (sqrt_floor(n) + 1) * (sqrt_floor(n) + 1));
        } else {
            assert(sqrt_floor(n) == r);
            assert(n < (r + 1) * (r + 1));
            assert(n < (sqrt_floor(n) + 1) * (sqrt_floor(n) + 1));
        }
    }
}

/// Any value that satisfies the square-root bracket is the floor square root.
pub proof fn lemma_sqrt_floor_unique(n: nat, r: nat)
    requires
        r * r <= n,
        n < (r + 1) * (r + 1),
    ensures
        r == sqrt_floor(n),
{
    lemma_sqrt_floor_bracket(n);
    let s = sqrt_floor(n);
    assert(r == s) by (nonlinear_arith)
        requires
            r * r <= n,
            n < (r + 1) * (r + 1),
            s * s <= n,
            n < (s + 1) * (s + 1),
            r >= 0,
            s >= 0,
    ;
}

/// Floor square root of a double-width value, by bisection.
pub fn isqrt_u128(x: u128) -> (r: u64)
    ensures
        r as nat == sqrt_floor(x as nat),
{
    let mut lo: u128 = 0;
    let mut hi: u128 = 18_446_744_073_709_551_616;  // 2^64
    proof {
        assert((18_446_744_073_709_551_616int) * (18_446_744_073_709_551_616int) > u128::MAX);
    }
    while lo + 1 < hi
        invariant
            lo < hi,
            hi <= 18_446_744_073_709_551_616,
            (lo as int) * (lo as int) <= x as int,
            (x as int) < (hi as int) * (hi as int),
        decreases hi - lo,
    {
        let mid = lo + (hi - lo) / 2;
        proof {
            assert(lo < mid < hi);
            assert((mid as int) * (mid as int) <= u128::MAX) by (nonlinear_arith)
                requires
                    0 <= (mid as int) < 18_446_744_073_709_551_616int,
            ;
        }
        if mid * mid <= x {
            lo = mid;
        } else {
            hi = mid;
        }
    }
    proof {
        assert(hi == lo + 1);
        lemma_sqrt_floor_unique(x as nat, lo as nat);
    }
    lo as u64
}

} // verus!
