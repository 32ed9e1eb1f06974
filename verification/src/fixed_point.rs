//! Checked arithmetic on 64-bit amounts.
//!
//! No operation wraps or panics. A sum or product that does not fit, a
//! difference below zero and a division by zero each come back as an error
//! of their own. Quotients are rounded down, never up.

use crate::error::AMMError;
use vstd::arithmetic::power::{lemma_pow_increases, pow};
use vstd::prelude::*;

verus! {

/// The largest number of decimal digits whose scale still fits in 64 bits.
pub const MAX_PRECISION: u8 = 19;

/// `a + b`, or `Overflow` when the sum does not fit in 64 bits.
pub fn add(a: u64, b: u64) -> (r: Result<u64, AMMError>)
    ensures
        match r {
            Ok(sum) => sum == a + b,
            Err(e) => e == AMMError::Overflow && a + b > u64::MAX,
        },
{
    match a.checked_add(b) {
        Some(sum) => Ok(sum),
        None => Err(AMMError::Overflow),
    }
}

/// `a - b`, or `Underflow` when `b` is the larger.
pub fn sub(a: u64, b: u64) -> (r: Result<u64, AMMError>)
    ensures
        match r {
            Ok(difference) => difference == a - b,
            Err(e) => e == AMMError::Underflow && a < b,
        },
{
    if a < b {
        Err(AMMError::Underflow)
    } else {
        Ok(a - b)
    }
}

/// `a * b`, or `Overflow` when the product does not fit in 64 bits.
pub fn mul(a: u64, b: u64) -> (r: Result<u64, AMMError>)
    ensures
        match r {
            Ok(product) => product == a * b,
            Err(e) => e == AMMError::Overflow && a * b > u64::MAX,
        },
{
    match a.checked_mul(b) {
        Some(product) => Ok(product),
        None => Err(AMMError::Overflow),
    }
}

/// `a / b` rounded down, or `ZeroBalance` when `b` is zero.
pub fn div(a: u64, b: u64) -> (r: Result<u64, AMMError>)
    ensures
        match r {
            Ok(quotient) => b != 0 && quotient == a / b,
            Err(e) => e == AMMError::ZeroBalance && b == 0,
        },
{
    if b == 0 {
        Err(AMMError::ZeroBalance)
    } else {
        Ok(a / b)
    }
}

/// `a * b / c` rounded down. The product is formed in 128 bits, so only
/// the final quotient has to fit in 64: `Overflow` when it does not,
/// `ZeroBalance` when `c` is zero.
pub fn mul_div(a: u64, b: u64, c: u64) -> (r: Result<u64, AMMError>)
    ensures
        match r {
            Ok(quotient) => c != 0 && quotient == (a * b) / (c as int),
            Err(e) => if c == 0 {
                e == AMMError::ZeroBalance
            } else {
                e == AMMError::Overflow && (a * b) / (c as int) > u64::MAX
            },
        },
{
    if c == 0 {
        return Err(AMMError::ZeroBalance);
    }
    let quotient: u128 = wide_product(a, b) / (c as u128);
    if quotient > u64::MAX as u128 {
        Err(AMMError::Overflow)
    } else {
        Ok(quotient as u64)
    }
}

/// `a * b` in 128 bits, where it always fits.
pub fn wide_product(a: u64, b: u64) -> (product: u128)
    ensures
        product == a * b,
{
    assert(a * b <= u128::MAX) by (nonlinear_arith)
        requires
            a <= u64::MAX,
            b <= u64::MAX,
    ;
    (a as u128) * (b as u128)
}

/// A scale of `digits` decimal digits fits in 64 bits exactly when there
/// are at most `MAX_PRECISION` of them.
pub proof fn lemma_scale_fits(digits: nat)
    ensures
        pow(10, digits) <= u64::MAX <==> digits <= MAX_PRECISION,
        pow(10, 19) == 10_000_000_000_000_000_000,
{
    reveal_with_fuel(pow, 21);
    assert(pow(10, 19) == 10_000_000_000_000_000_000);
    assert(pow(10, 20) == 100_000_000_000_000_000_000);
    if digits <= 19 {
        lemma_pow_increases(10, digits, 19);
    } else {
        lemma_pow_increases(10, 20, digits);
    }
}

/// The fixed-point scale of `precision` decimal digits, `10^precision`, or
/// `InvalidPrecision` when that scale does not fit in 64 bits.
pub fn precision_scale(precision: u8) -> (r: Result<u64, AMMError>)
    ensures
        match r {
            Ok(scale) => precision <= MAX_PRECISION && scale == pow(10, precision as nat),
            Err(e) => e == AMMError::InvalidPrecision && precision > MAX_PRECISION,
        },
{
    if precision > MAX_PRECISION {
        return Err(AMMError::InvalidPrecision);
    }
    let mut scale: u64 = 1;
    let mut digits: u8 = 0;
    proof {
        reveal_with_fuel(pow, 1);
    }
    while digits < precision
        invariant
            digits <= precision <= MAX_PRECISION,
            scale == pow(10, digits as nat),
        decreases precision - digits,
    {
        proof {
            reveal_with_fuel(pow, 2);
            lemma_scale_fits((digits + 1) as nat);
        }
        scale = scale * 10;
        digits = digits + 1;
    }
    Ok(scale)
}

} // verus!
