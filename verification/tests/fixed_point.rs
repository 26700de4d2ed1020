use jumpscan::bytes::fx_of_f32_bits;
use jumpscan::fx::{angle_mod, cos_fx, fx_add, fx_clamp, fx_mul, isqrt_u128, sin_fx, FX_CIRCLE, FX_LIM, FX_ONE, FX_QUARTER};

#[test]
fn scale_constants_are_consistent() {
    assert_eq!(FX_CIRCLE, 360 * FX_ONE);
    assert_eq!(FX_QUARTER, 90 * FX_ONE);
    assert_eq!(fx_mul(FX_ONE, FX_ONE), FX_ONE);
}

#[test]
fn mul_is_scaled_product() {
    assert_eq!(fx_mul(2000, 3000), 6000);
    assert_eq!(fx_mul(-2000, 3000), -6000);
    assert_eq!(fx_mul(2000, -3000), -6000);
    assert_eq!(fx_mul(-2000, -3000), 6000);
    assert_eq!(fx_mul(1500, 1500), 2250);
    assert_eq!(fx_mul(1, 1), 0);
}

#[test]
fn mul_saturates() {
    assert_eq!(fx_mul(i64::MAX, i64::MAX), FX_LIM);
    assert_eq!(fx_mul(i64::MIN, i64::MAX), -FX_LIM);
    assert_eq!(fx_mul(i64::MIN, i64::MIN), FX_LIM);
}

#[test]
fn add_saturates() {
    assert_eq!(fx_add(1000, 234), 1234);
    assert_eq!(fx_add(i64::MAX, 1), FX_LIM);
    assert_eq!(fx_add(i64::MIN, -1), -FX_LIM);
    assert_eq!(fx_clamp(i64::MAX), FX_LIM);
    assert_eq!(fx_clamp(-77), -77);
}

#[test]
fn integer_square_roots() {
    assert_eq!(isqrt_u128(0), 0);
    assert_eq!(isqrt_u128(1), 1);
    assert_eq!(isqrt_u128(3), 1);
    assert_eq!(isqrt_u128(4), 2);
    assert_eq!(isqrt_u128(1000000), 1000);
    assert_eq!(isqrt_u128(999999), 999);
    assert_eq!(isqrt_u128(u128::from(u64::MAX)), 4294967295);
}

#[test]
fn angle_reduction_is_euclidean() {
    assert_eq!(angle_mod(0), 0);
    assert_eq!(angle_mod(359999), 359999);
    assert_eq!(angle_mod(360000), 0);
    assert_eq!(angle_mod(720001), 1);
    assert_eq!(angle_mod(-1), 359999);
    assert_eq!(angle_mod(-360000), 0);
    assert_eq!(angle_mod(-90000), 270000);
}

#[test]
fn sine_cosine_cardinal_angles() {
    assert_eq!(sin_fx(0), 0);
    assert_eq!(cos_fx(0), 1000);
    assert_eq!(sin_fx(90000), 1000);
    assert_eq!(cos_fx(90000), 0);
    assert_eq!(sin_fx(180000), 0);
    assert_eq!(cos_fx(180000), -1000);
    assert_eq!(sin_fx(270000), -1000);
    assert_eq!(cos_fx(270000), 0);
    assert_eq!(sin_fx(-90000), -1000);
}

#[test]
fn sine_is_close_at_mid_angles() {
    // 30 degrees: sine 0.5, cosine ~0.866.
    let s = sin_fx(30000);
    let c = cos_fx(30000);
    assert!((s - 500).abs() <= 3, "sin 30 deg was {s}");
    assert!((c - 866).abs() <= 3, "cos 30 deg was {c}");
    // 45 degrees: both ~0.707.
    let s45 = sin_fx(45000);
    assert!((s45 - 707).abs() <= 3, "sin 45 deg was {s45}");
}

#[test]
fn f32_bits_to_fixed_point() {
    assert_eq!(fx_of_f32_bits(0.0f32.to_bits()), 0);
    assert_eq!(fx_of_f32_bits(1.0f32.to_bits()), 1000);
    assert_eq!(fx_of_f32_bits((-1.0f32).to_bits()), -1000);
    assert_eq!(fx_of_f32_bits(2.5f32.to_bits()), 2500);
    assert_eq!(fx_of_f32_bits((-2.5f32).to_bits()), -2500);
    assert_eq!(fx_of_f32_bits(0.125f32.to_bits()), 125);
    assert_eq!(fx_of_f32_bits(16.0f32.to_bits()), 16000);
    assert_eq!(fx_of_f32_bits(800.0f32.to_bits()), 800000);
    // Truncation toward zero.
    assert_eq!(fx_of_f32_bits(0.0001f32.to_bits()), 0);
    // Non-finite and huge values saturate.
    assert_eq!(fx_of_f32_bits(f32::INFINITY.to_bits()), FX_LIM);
    assert_eq!(fx_of_f32_bits(f32::NEG_INFINITY.to_bits()), -FX_LIM);
    assert_eq!(fx_of_f32_bits(1.0e30f32.to_bits()), FX_LIM);
    // Negative zero is zero.
    assert_eq!(fx_of_f32_bits((-0.0f32).to_bits()), 0);
}
