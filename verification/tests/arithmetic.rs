//! Tests of the fixed-point scalar and vector operations.

use xpbd::fx::{fx_div, fx_mul, isqrt_u128, sat_abs, sat_add, sat_neg, sat_sub};
use xpbd::vec3::{vadd, vcross, vdot, vlen, vnormalize_or_zero, vscale, vsub, Vec3};
use xpbd::SCALE;

fn v(x: i64, y: i64, z: i64) -> Vec3 {
    Vec3::new(x, y, z)
}

#[test]
fn fixed_point_products() {
    // 2.0 * 3.5 == 7.0.
    assert_eq!(fx_mul(2 * SCALE, 3_500_000), 7 * SCALE);
    // Rounding is toward zero on either sign.
    assert_eq!(fx_mul(-1_500_000, 1_000_001), -1_500_001);
    assert_eq!(fx_mul(1_500_000, 1_000_001), 1_500_001);
    assert_eq!(fx_mul(7, 7), 0);
}

#[test]
fn fixed_point_quotients() {
    // 1.0 / 3.0 truncates toward zero.
    assert_eq!(fx_div(SCALE, 3 * SCALE), 333_333);
    assert_eq!(fx_div(-SCALE, 3 * SCALE), -333_333);
    assert_eq!(fx_div(SCALE, -3 * SCALE), -333_333);
    // A zero divisor yields zero rather than failing.
    assert_eq!(fx_div(123, 0), 0);
    assert_eq!(fx_div(10 * SCALE, 1_000_000_000), 10_000);
}

#[test]
fn saturation_at_the_i64_range() {
    assert_eq!(sat_add(i64::MAX, 1), i64::MAX);
    assert_eq!(sat_sub(i64::MIN, 1), i64::MIN);
    assert_eq!(sat_neg(i64::MIN), i64::MAX);
    assert_eq!(sat_abs(i64::MIN), i64::MAX);
    assert_eq!(sat_add(1, 2), 3);
    assert_eq!(sat_abs(-7), 7);
}

#[test]
fn integer_square_roots() {
    assert_eq!(isqrt_u128(0), 0);
    assert_eq!(isqrt_u128(1), 1);
    assert_eq!(isqrt_u128(2), 1);
    assert_eq!(isqrt_u128(4), 2);
    assert_eq!(isqrt_u128(999_999), 999);
    assert_eq!(isqrt_u128(u128::MAX), u64::MAX);
}

#[test]
fn vector_lengths() {
    // A 3-4-5 triangle in ticks.
    assert_eq!(vlen(v(3 * SCALE, 4 * SCALE, 0)), 5 * SCALE);
    assert_eq!(vlen(v(0, 0, 0)), 0);
    assert_eq!(vlen(v(-SCALE, 0, 0)), SCALE);
}

#[test]
fn vector_algebra() {
    assert_eq!(vadd(v(1, 2, 3), v(4, 5, 6)), v(5, 7, 9));
    assert_eq!(vsub(v(4, 5, 6), v(1, 2, 3)), v(3, 3, 3));
    assert_eq!(vscale(v(SCALE, -2 * SCALE, 0), SCALE / 2), v(SCALE / 2, -SCALE, 0));
    assert_eq!(vdot(v(SCALE, 0, 0), v(0, SCALE, 0)), 0);
    assert_eq!(vdot(v(2 * SCALE, 0, 0), v(3 * SCALE, 0, 0)), 6 * SCALE);
    // The right-handed basis: x cross y is z.
    assert_eq!(vcross(v(SCALE, 0, 0), v(0, SCALE, 0)), v(0, 0, SCALE));
    assert_eq!(vcross(v(0, SCALE, 0), v(SCALE, 0, 0)), v(0, 0, -SCALE));
}

#[test]
fn normalization_and_the_zero_vector() {
    assert_eq!(vnormalize_or_zero(v(2 * SCALE, 0, 0)), v(SCALE, 0, 0));
    assert_eq!(vnormalize_or_zero(v(0, 0, 0)), v(0, 0, 0));
    let u = vnormalize_or_zero(v(SCALE, SCALE, SCALE));
    let len = vlen(u);
    assert!((len - SCALE).abs() < 5, "unit length {len}");
}
