//! Fixed-point 3-vectors and their exactly specified operations.

use vstd::prelude::*;

verus! {

use crate::SCALE;
use crate::fx::{
    div_count_s, div_count, fx_div_s, fx_div, fx_mul_s, fx_mul, sat64, sat_add_s, sat_add,
    sat_neg_s, sat_neg, sat_sub_s, sat_sub, sqrt_floor, isqrt_u128, lemma_sqrt_floor_bracket,
};

/// A 3-vector of raw fixed-point ticks (`SCALE` ticks per coordinate unit).
#[derive(Clone, Copy, Debug, PartialEq, Eq, Structural)]
pub struct Vec3 {
    pub x: i64,
    pub y: i64,
    pub z: i64,
}

impl Vec3 {
    /// Builds the vector with the given raw tick coordinates.
    pub fn new(x: i64, y: i64, z: i64) -> (r: Vec3)
        ensures
            r == (Vec3 { x, y, z }),
    {
        Vec3 { x, y, z }
    }
}

/// The zero vector.
pub open spec fn vzero() -> Vec3 {
    Vec3 { x: 0, y: 0, z: 0 }
}

/// Component-wise saturating sum.
pub open spec fn vadd_s(a: Vec3, b: Vec3) -> Vec3 {
    Vec3 { x: sat_add_s(a.x, b.x), y: sat_add_s(a.y, b.y), z: sat_add_s(a.z, b.z) }
}

/// Executable twin of [`vadd_s`].
pub fn vadd(a: Vec3, b: Vec3) -> (r: Vec3)
    ensures
        r == vadd_s(a, b),
{
    Vec3 { x: sat_add(a.x, b.x), y: sat_add(a.y, b.y), z: sat_add(a.z, b.z) }
}

/// Component-wise saturating difference.
pub open spec fn vsub_s(a: Vec3, b: Vec3) -> Vec3 {
    Vec3 { x: sat_sub_s(a.x, b.x), y: sat_sub_s(a.y, b.y), z: sat_sub_s(a.z, b.z) }
}

/// Executable twin of [`vsub_s`].
pub fn vsub(a: Vec3, b: Vec3) -> (r: Vec3)
    ensures
        r == vsub_s(a, b),
{
    Vec3 { x: sat_sub(a.x, b.x), y: sat_sub(a.y, b.y), z: sat_sub(a.z, b.z) }
}

/// Component-wise saturating negation.
pub open spec fn vneg_s(a: Vec3) -> Vec3 {
    Vec3 { x: sat_neg_s(a.x), y: sat_neg_s(a.y), z: sat_neg_s(a.z) }
}

/// Executable twin of [`vneg_s`].
pub fn vneg(a: Vec3) -> (r: Vec3)
    ensures
        r == vneg_s(a),
{
    Vec3 { x: sat_neg(a.x), y: sat_neg(a.y), z: sat_neg(a.z) }
}

/// Scales each component by the fixed-point scalar `s`.
pub open spec fn vscale_s(a: Vec3, s: i64) -> Vec3 {
    Vec3 { x: fx_mul_s(a.x, s), y: fx_mul_s(a.y, s), z: fx_mul_s(a.z, s) }
}

/// Executable twin of [`vscale_s`].
pub fn vscale(a: Vec3, s: i64) -> (r: Vec3)
    ensures
        r == vscale_s(a, s),
{
    Vec3 { x: fx_mul(a.x, s), y: fx_mul(a.y, s), z: fx_mul(a.z, s) }
}

/// Divides each component by the fixed-point scalar `d` (zero divisor yields
/// the zero vector, as [`fx_div_s`] is total).
pub open spec fn vdiv_fx_s(a: Vec3, d: i64) -> Vec3 {
    Vec3 { x: fx_div_s(a.x, d), y: fx_div_s(a.y, d), z: fx_div_s(a.z, d) }
}

/// Executable twin of [`vdiv_fx_s`].
pub fn vdiv_fx(a: Vec3, d: i64) -> (r: Vec3)
    ensures
        r == vdiv_fx_s(a, d),
{
    Vec3 { x: fx_div(a.x, d), y: fx_div(a.y, d), z: fx_div(a.z, d) }
}

/// Divides each raw component by a correction count, rounding toward zero.
pub open spec fn vdiv_count_s(a: Vec3, n: int) -> Vec3 {
    Vec3 { x: div_count_s(a.x, n), y: div_count_s(a.y, n), z: div_count_s(a.z, n) }
}

/// Executable twin of [`vdiv_count_s`].
pub fn vdiv_count(a: Vec3, n: usize) -> (r: Vec3)
    ensures
        r == vdiv_count_s(a, n as int),
{
    Vec3 { x: div_count(a.x, n), y: div_count(a.y, n), z: div_count(a.z, n) }
}

/// Fixed-point dot product, summed left to right.
pub open spec fn vdot_s(a: Vec3, b: Vec3) -> i64 {
    sat_add_s(sat_add_s(fx_mul_s(a.x, b.x), fx_mul_s(a.y, b.y)), fx_mul_s(a.z, b.z))
}

/// Executable twin of [`vdot_s`].
pub fn vdot(a: Vec3, b: Vec3) -> (r: i64)
    ensures
        r == vdot_s(a, b),
{
    sat_add(sat_add(fx_mul(a.x, b.x), fx_mul(a.y, b.y)), fx_mul(a.z, b.z))
}

/// Fixed-point cross product.
pub open spec fn vcross_s(a: Vec3, b: Vec3) -> Vec3 {
    Vec3 {
        x: sat_sub_s(fx_mul_s(a.y, b.z), fx_mul_s(a.z, b.y)),
        y: sat_sub_s(fx_mul_s(a.z, b.x), fx_mul_s(a.x, b.z)),
        z: sat_sub_s(fx_mul_s(a.x, b.y), fx_mul_s(a.y, b.x)),
    }
}

/// Executable twin of [`vcross_s`].
pub fn vcross(a: Vec3, b: Vec3) -> (r: Vec3)
    ensures
        r == vcross_s(a, b),
{
    Vec3 {
        x: sat_sub(fx_mul(a.y, b.z), fx_mul(a.z, b.y)),
        y: sat_sub(fx_mul(a.z, b.x), fx_mul(a.x, b.z)),
        z: sat_sub(fx_mul(a.x, b.y), fx_mul(a.y, b.x)),
    }
}

/// The exact sum of the squared raw components, as a mathematical integer.
pub open spec fn norm2_raw_s(a: Vec3) -> int {
    a.x * a.x + a.y * a.y + a.z * a.z
}

/// Executable twin of [`norm2_raw_s`]: the exact double-width value.
pub fn norm2_raw(a: Vec3) -> (r: u128)
    ensures
        r as int == norm2_raw_s(a),
{
    proof {
        assert(0 <= (a.x as int) * (a.x as int) <= i128::MAX && 0 <= (a.y as int) * (a.y as int)
            <= i128::MAX && 0 <= (a.z as int) * (a.z as int) <= i128::MAX && (a.x as int) * (a.x
            as int) + (a.y as int) * (a.y as int) + (a.z as int) * (a.z as int) <= u128::MAX)
            by (nonlinear_arith)
            requires
                i64::MIN <= a.x <= i64::MAX,
                i64::MIN <= a.y <= i64::MAX,
                i64::MIN <= a.z <= i64::MAX,
        ;
    }
    let xx: u128 = ((a.x as i128) * (a.x as i128)) as u128;
    let yy: u128 = ((a.y as i128) * (a.y as i128)) as u128;
    let zz: u128 = ((a.z as i128) * (a.z as i128)) as u128;
    xx + yy + zz
}

/// Euclidean length in raw ticks: the floor square root of the exact squared
/// norm, saturated to `i64`. The squared norm is in squared-tick units, so its
/// root is again in ticks.
pub open spec fn vlen_s(a: Vec3) -> i64 {
    sat64(sqrt_floor(norm2_raw_s(a) as nat) as int)
}

/// Executable twin of [`vlen_s`].
pub fn vlen(a: Vec3) -> (r: i64)
    ensures
        r == vlen_s(a),
{
    let n2 = norm2_raw(a);
    let root = isqrt_u128(n2);
    if root > i64::MAX as u64 {
        i64::MAX
    } else {
        root as i64
    }
}

/// Squared length in fixed-point ticks: the exact squared norm divided by
/// `SCALE`, saturated.
pub open spec fn vnorm2_fx_s(a: Vec3) -> i64 {
    sat64(norm2_raw_s(a) / (SCALE as int))
}

/// Executable twin of [`vnorm2_fx_s`].
pub fn vnorm2_fx(a: Vec3) -> (r: i64)
    ensures
        r == vnorm2_fx_s(a),
{
    let n2 = norm2_raw(a);
    let q: u128 = n2 / (SCALE as u128);
    if q > i64::MAX as u128 {
        i64::MAX
    } else {
        q as i64
    }
}

/// The unit direction of `a` in fixed point, or the zero vector when `a` has
/// zero length.
pub open spec fn vnormalize_or_zero_s(a: Vec3) -> Vec3 {
    let len = vlen_s(a);
    if len == 0 {
        vzero()
    } else {
        vdiv_fx_s(a, len)
    }
}

/// Executable twin of [`vnormalize_or_zero_s`].
pub fn vnormalize_or_zero(a: Vec3) -> (r: Vec3)
    ensures
        r == vnormalize_or_zero_s(a),
{
    let len = vlen(a);
    if len == 0 {
        Vec3 { x: 0, y: 0, z: 0 }
    } else {
        vdiv_fx(a, len)
    }
}

/// A vector of zero length is the zero vector, and conversely.
pub proof fn lemma_zero_length_is_zero_vector(a: Vec3)
    ensures
        vlen_s(a) == 0 <==> a == vzero(),
{
    lemma_sqrt_floor_bracket(norm2_raw_s(a) as nat);
    assert(a.x * a.x >= 0 && a.y * a.y >= 0 && a.z * a.z >= 0) by (nonlinear_arith);
    if a == vzero() {
        assert(norm2_raw_s(a) == 0);
    } else {
        assert(norm2_raw_s(a) > 0) by (nonlinear_arith)
            requires
                !(a.x == 0 && a.y == 0 && a.z == 0),
        ;
    }
}

} // verus!
