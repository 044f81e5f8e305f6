use rs_raytracer::fixed::{
    fx_abs, fx_add, fx_clamp, fx_div, fx_max, fx_min, fx_mul, fx_neg, fx_sqrt, fx_sub, FX_HALF,
    FX_MAX, FX_MIN, FX_ONE,
};

#[test]
fn add_sub_neg_exact() {
    assert_eq!(fx_add(FX_ONE, FX_ONE), 2 * FX_ONE);
    assert_eq!(fx_sub(FX_ONE, 3 * FX_ONE), -2 * FX_ONE);
    assert_eq!(fx_neg(FX_HALF), -FX_HALF);
    assert_eq!(fx_neg(0), 0);
}

#[test]
fn add_saturates_at_bounds() {
    assert_eq!(fx_add(FX_MAX, 1), FX_MAX);
    assert_eq!(fx_add(FX_MAX, FX_MAX), FX_MAX);
    assert_eq!(fx_sub(FX_MIN, 1), FX_MIN);
    assert_eq!(fx_neg(i64::MIN), FX_MAX);
}

#[test]
fn mul_is_scaled_product() {
    // 1.5 * 2 == 3
    assert_eq!(fx_mul(3 * FX_HALF, 2 * FX_ONE), 3 * FX_ONE);
    // 0.5 * 0.5 == 0.25
    assert_eq!(fx_mul(FX_HALF, FX_HALF), 16384);
    assert_eq!(fx_mul(-FX_HALF, FX_HALF), -16384);
    assert_eq!(fx_mul(7, 0), 0);
    assert_eq!(fx_mul(FX_MAX, FX_MAX), FX_MAX);
}

#[test]
fn div_truncates_toward_zero() {
    // -1/3 truncates toward zero, not toward minus infinity.
    assert_eq!(fx_div(-FX_ONE, 3 * FX_ONE), -21845);
    assert_eq!(fx_div(FX_ONE, 3 * FX_ONE), 21845);
    assert_eq!(fx_div(FX_ONE, 2 * FX_ONE), FX_HALF);
}

#[test]
fn div_by_zero_is_zero() {
    assert_eq!(fx_div(12345, 0), 0);
    assert_eq!(fx_div(-12345, 0), 0);
}

#[test]
fn sqrt_exact_and_total() {
    assert_eq!(fx_sqrt(FX_ONE), FX_ONE);
    assert_eq!(fx_sqrt(16384), FX_HALF); // sqrt(0.25) == 0.5
    assert_eq!(fx_sqrt(4 * FX_ONE), 2 * FX_ONE);
    assert_eq!(fx_sqrt(2 * FX_ONE), 92681); // sqrt(2), truncated
    assert_eq!(fx_sqrt(0), 0);
    assert_eq!(fx_sqrt(-5), 0);
}

#[test]
fn min_max_abs_clamp() {
    assert_eq!(fx_min(3, -4), -4);
    assert_eq!(fx_max(3, -4), 3);
    assert_eq!(fx_abs(-FX_ONE), FX_ONE);
    assert_eq!(fx_abs(i64::MIN), FX_MAX);
    assert_eq!(fx_clamp(100, 0, FX_ONE), 100);
    assert_eq!(fx_clamp(-5, 0, FX_ONE), 0);
    assert_eq!(fx_clamp(FX_ONE + 1, 0, FX_ONE), FX_ONE);
}
