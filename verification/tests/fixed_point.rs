use amm_anchor::fixed_point::{self, precision_scale, wide_product, MAX_PRECISION};
use amm_anchor::AMMError;

#[test]
fn add_gives_the_sum() {
    assert_eq!(fixed_point::add(2, 3), Ok(5));
    assert_eq!(fixed_point::add(u64::MAX - 1, 1), Ok(u64::MAX));
    assert_eq!(fixed_point::add(0, 0), Ok(0));
}

#[test]
fn add_reports_overflow() {
    assert_eq!(fixed_point::add(u64::MAX, 1), Err(AMMError::Overflow));
    assert_eq!(fixed_point::add(u64::MAX, u64::MAX), Err(AMMError::Overflow));
}

#[test]
fn sub_gives_the_difference() {
    assert_eq!(fixed_point::sub(5, 3), Ok(2));
    assert_eq!(fixed_point::sub(7, 7), Ok(0));
    assert_eq!(fixed_point::sub(u64::MAX, 0), Ok(u64::MAX));
}

#[test]
fn sub_reports_underflow() {
    assert_eq!(fixed_point::sub(3, 5), Err(AMMError::Underflow));
    assert_eq!(fixed_point::sub(0, 1), Err(AMMError::Underflow));
}

#[test]
fn mul_gives_the_product() {
    assert_eq!(fixed_point::mul(6, 7), Ok(42));
    assert_eq!(fixed_point::mul(0, u64::MAX), Ok(0));
    assert_eq!(fixed_point::mul(4_294_967_296, 4_294_967_295), Ok(18_446_744_069_414_584_320));
}

#[test]
fn mul_reports_overflow() {
    assert_eq!(fixed_point::mul(4_294_967_296, 4_294_967_296), Err(AMMError::Overflow));
    assert_eq!(fixed_point::mul(u64::MAX, 2), Err(AMMError::Overflow));
}

#[test]
fn div_rounds_down() {
    assert_eq!(fixed_point::div(7, 2), Ok(3));
    assert_eq!(fixed_point::div(6, 3), Ok(2));
    assert_eq!(fixed_point::div(0, 9), Ok(0));
    assert_eq!(fixed_point::div(1, 2), Ok(0));
}

#[test]
fn div_by_zero_is_reported() {
    assert_eq!(fixed_point::div(7, 0), Err(AMMError::ZeroBalance));
    assert_eq!(fixed_point::div(0, 0), Err(AMMError::ZeroBalance));
}

#[test]
fn mul_div_rounds_down() {
    assert_eq!(fixed_point::mul_div(7, 3, 2), Ok(10));
    assert_eq!(fixed_point::mul_div(1000, 30, 10_000), Ok(3));
    assert_eq!(fixed_point::mul_div(999, 1, 1000), Ok(0));
}

#[test]
fn mul_div_keeps_a_wide_product() {
    // The product alone needs 128 bits; the quotient fits in 64.
    assert_eq!(fixed_point::mul_div(u64::MAX, u64::MAX, u64::MAX), Ok(u64::MAX));
    assert_eq!(fixed_point::mul_div(u64::MAX, 3, 2), Err(AMMError::Overflow));
    assert_eq!(
        fixed_point::mul_div(u64::MAX, 1_000_000, 2_000_000),
        Ok(9_223_372_036_854_775_807)
    );
}

#[test]
fn mul_div_reports_overflow_and_zero_divisor() {
    assert_eq!(fixed_point::mul_div(u64::MAX, 2, 1), Err(AMMError::Overflow));
    assert_eq!(fixed_point::mul_div(1, 1, 0), Err(AMMError::ZeroBalance));
    assert_eq!(fixed_point::mul_div(u64::MAX, u64::MAX, 0), Err(AMMError::ZeroBalance));
}

#[test]
fn wide_product_never_overflows() {
    assert_eq!(wide_product(u64::MAX, u64::MAX), 340_282_366_920_938_463_426_481_119_284_349_108_225);
    assert_eq!(wide_product(3, 4), 12);
    assert_eq!(wide_product(0, u64::MAX), 0);
}

#[test]
fn precision_scale_is_a_power_of_ten() {
    assert_eq!(precision_scale(0), Ok(1));
    assert_eq!(precision_scale(1), Ok(10));
    assert_eq!(precision_scale(6), Ok(1_000_000));
    assert_eq!(precision_scale(MAX_PRECISION), Ok(10_000_000_000_000_000_000));
}

#[test]
fn precision_scale_refuses_what_does_not_fit() {
    assert_eq!(MAX_PRECISION, 19);
    assert_eq!(precision_scale(20), Err(AMMError::InvalidPrecision));
    assert_eq!(precision_scale(u8::MAX), Err(AMMError::InvalidPrecision));
}
