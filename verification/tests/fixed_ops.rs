//! Exact-value tests of the fixed-point scalar kernel.

use ray_tracer::fixed::{
    clamp, degrees_to_radians, fx_add, fx_div, fx_div_int, fx_from_u32, fx_mul, fx_neg, fx_sqrt,
    fx_sub, isqrt_u128, radians_to_degrees, surrounds, tan_fx, FX_MAX, HALF, PI_FX, SCALE,
};

#[test]
fn add_sub_neg_exact() {
    assert_eq!(fx_add(3 * SCALE, 4 * SCALE), 7 * SCALE);
    assert_eq!(fx_sub(3 * SCALE, 4 * SCALE), -SCALE);
    assert_eq!(fx_neg(5 * SCALE), -5 * SCALE);
    assert_eq!(fx_neg(0), 0);
}

#[test]
fn add_saturates_symmetrically() {
    assert_eq!(fx_add(FX_MAX, FX_MAX), FX_MAX);
    assert_eq!(fx_sub(-FX_MAX, FX_MAX), -FX_MAX);
    assert_eq!(fx_neg(FX_MAX), -FX_MAX);
}

#[test]
fn mul_is_scaled_product() {
    // 1.5 * 2 = 3
    assert_eq!(fx_mul(3 * HALF, 2 * SCALE), 3 * SCALE);
    // 0.5 * 0.5 = 0.25
    assert_eq!(fx_mul(HALF, HALF), 16384);
    // sign handling truncates toward zero
    assert_eq!(fx_mul(-HALF, HALF), -16384);
    assert_eq!(fx_mul(1, 1), 0);
}

#[test]
fn mul_saturates() {
    assert_eq!(fx_mul(FX_MAX, FX_MAX), FX_MAX);
    assert_eq!(fx_mul(FX_MAX, -FX_MAX), -FX_MAX);
}

#[test]
fn div_is_scaled_ratio() {
    assert_eq!(fx_div(3 * SCALE, 2 * SCALE), 3 * HALF);
    assert_eq!(fx_div(-3 * SCALE, 2 * SCALE), -3 * HALF);
    assert_eq!(fx_div(SCALE, 3 * SCALE), 21845);
    assert_eq!(fx_div_int(7 * SCALE, 2), 7 * HALF);
    assert_eq!(fx_div_int(-7, 2), -3);
}

#[test]
fn sqrt_exact_squares() {
    assert_eq!(fx_sqrt(4 * SCALE), 2 * SCALE);
    assert_eq!(fx_sqrt(16384), HALF);
    assert_eq!(fx_sqrt(0), 0);
    assert_eq!(isqrt_u128(1_000_000), 1000);
    assert_eq!(isqrt_u128(999_999), 999);
}

#[test]
fn clamp_and_surrounds() {
    assert_eq!(clamp(0, -5, 10), 0);
    assert_eq!(clamp(0, 5, 10), 5);
    assert_eq!(clamp(0, 15, 10), 10);
    assert!(surrounds(0, 5, 10));
    assert!(!surrounds(0, 0, 10));
    assert!(!surrounds(0, 10, 10));
}

#[test]
fn degree_radian_conversions() {
    assert_eq!(degrees_to_radians(180 * SCALE), PI_FX);
    // round-trips close to the original angle
    let back = radians_to_degrees(degrees_to_radians(90 * SCALE));
    assert!((back - 90 * SCALE).abs() < 64);
}

#[test]
fn tangent_of_45_degrees_is_one() {
    let rad45 = fx_div(degrees_to_radians(90 * SCALE), 2 * SCALE);
    assert_eq!(tan_fx(rad45), SCALE);
}

#[test]
fn u32_to_scalar() {
    assert_eq!(fx_from_u32(400), 400 * SCALE);
    assert_eq!(fx_from_u32(0), 0);
}
