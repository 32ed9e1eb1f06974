//! The constant-product curve: what a swap pays out, and which deposits
//! leave the price alone.
//!
//! A pool holds two reserves. Their product is the invariant: a swap that
//! adds to one reserve takes from the other what keeps the product where it
//! was, after a fee has been withheld from what came in.

use crate::error::AMMError;
use crate::fixed_point::{mul_div, wide_product};
use vstd::arithmetic::div_mod::{
    lemma_div_by_multiple,
    lemma_div_is_ordered_by_denominator,
    lemma_fundamental_div_mod,
    lemma_mod_pos_bound,
    lemma_multiply_divide_lt,
};
use vstd::arithmetic::mul::{lemma_mul_nonnegative, lemma_mul_strict_inequality};
use vstd::prelude::*;

verus! {

/// One hundred percent, in basis points.
pub const BASIS_POINTS: u64 = 10_000;

/// One of the pool's two assets.
#[derive(Clone, Copy, Debug, PartialEq, Eq, Structural)]
pub enum LiquidityPair {
    X,
    Y,
}

/// What one swap moves: the amount paid in, the amount paid out, and the
/// part of the payment kept as fee. It is computed per call and never stored.
#[derive(Clone, Copy, Debug, PartialEq, Eq, Structural)]
pub struct SwapToken {
    pub input_amount: u64,
    pub output_amount: u64,
    pub fee_amount: u64,
}

/// The fee withheld from a payment: the rate's share of it, rounded down.
pub open spec fn fee_amount(input_amount: int, fee_bps: int) -> int {
    (input_amount * fee_bps) / 10_000
}

/// What is left of a payment once the fee is withheld.
pub open spec fn net_input(input_amount: int, fee_bps: int) -> int {
    input_amount - fee_amount(input_amount, fee_bps)
}

/// The paying-out reserve after a swap: the product of the two reserves
/// divided by the grown paying-in reserve, rounded down.
pub open spec fn reserve_out_after(
    input_amount: int,
    reserve_in: int,
    reserve_out: int,
    fee_bps: int,
) -> int {
    (reserve_in * reserve_out) / (reserve_in + net_input(input_amount, fee_bps))
}

/// What a swap pays out: the difference between the paying-out reserve
/// before and after.
pub open spec fn output_amount(
    input_amount: int,
    reserve_in: int,
    reserve_out: int,
    fee_bps: int,
) -> int {
    reserve_out - reserve_out_after(input_amount, reserve_in, reserve_out, fee_bps)
}

/// Why no swap is quoted, if none is. The tests are made in this order:
/// an empty reserve or an empty payment; a fee too large for 64 bits; a fee
/// larger than the payment; a paying-in reserve that would outgrow 64 bits;
/// a swap that would take the whole paying-out reserve.
pub open spec fn quote_failure(
    input_amount: int,
    reserve_in: int,
    reserve_out: int,
    fee_bps: int,
) -> Option<AMMError> {
    if reserve_in == 0 || reserve_out == 0 || input_amount == 0 {
        Some(AMMError::ZeroBalance)
    } else if fee_amount(input_amount, fee_bps) > u64::MAX {
        Some(AMMError::Overflow)
    } else if fee_amount(input_amount, fee_bps) > input_amount {
        Some(AMMError::Underflow)
    } else if reserve_in + net_input(input_amount, fee_bps) > u64::MAX {
        Some(AMMError::Overflow)
    } else if reserve_out_after(input_amount, reserve_in, reserve_out, fee_bps) == 0 {
        Some(AMMError::ZeroBalance)
    } else {
        None
    }
}

/// Whether adding `delta_x` and `delta_y` to the reserves keeps their ratio,
/// tested by cross-multiplication so that nothing is rounded.
pub open spec fn ratio_preserved(delta_x: int, delta_y: int, reserve_x: int, reserve_y: int) -> bool {
    reserve_x * (reserve_y + delta_y) == (reserve_x + delta_x) * reserve_y
}

/// A rate of at most one hundred percent withholds no more than was paid.
pub proof fn lemma_fee_within_input(input_amount: int, fee_bps: int)
    requires
        0 <= input_amount,
        0 <= fee_bps <= 10_000,
    ensures
        0 <= fee_amount(input_amount, fee_bps) <= input_amount,
{
    assert(0 <= input_amount * fee_bps <= 10_000 * input_amount) by (nonlinear_arith)
        requires
            0 <= input_amount,
            0 <= fee_bps <= 10_000,
    ;
    assert(fee_amount(input_amount, fee_bps) <= input_amount) by {
        if input_amount * fee_bps < 10_000 * (input_amount + 1) {
            lemma_multiply_divide_lt(input_amount * fee_bps, 10_000, input_amount + 1);
        }
    }
    lemma_fundamental_div_mod(input_amount * fee_bps, 10_000);
    lemma_mod_pos_bound(input_amount * fee_bps, 10_000);
}

/// Dividing the product of the reserves by a paying-in reserve that has
/// not shrunk cannot give more than the paying-out reserve, and gives less
/// once anything was added.
pub proof fn lemma_reserve_out_shrinks(reserve_in: int, reserve_out: int, net: int)
    requires
        0 < reserve_in,
        0 <= reserve_out,
        0 <= net,
    ensures
        0 <= (reserve_in * reserve_out) / (reserve_in + net) <= reserve_out,
        net > 0 && reserve_out > 0 ==> (reserve_in * reserve_out) / (reserve_in + net)
            < reserve_out,
        net == 0 ==> (reserve_in * reserve_out) / (reserve_in + net) == reserve_out,
{
    let product = reserve_in * reserve_out;
    let grown = reserve_in + net;
    lemma_mul_nonnegative(reserve_in, reserve_out);
    assert(product == reserve_out * reserve_in) by (nonlinear_arith)
        requires
            product == reserve_in * reserve_out,
    ;
    lemma_div_by_multiple(reserve_out, reserve_in);
    lemma_div_is_ordered_by_denominator(product, reserve_in, grown);
    lemma_fundamental_div_mod(product, grown);
    lemma_mod_pos_bound(product, grown);
    assert(0 <= product / grown) by (nonlinear_arith)
        requires
            0 <= product,
            0 < grown,
            product == grown * (product / grown) + product % grown,
            product % grown < grown,
    ;
    if net > 0 && reserve_out > 0 {
        lemma_mul_strict_inequality(reserve_in, grown, reserve_out);
        assert(product < grown * reserve_out) by (nonlinear_arith)
            requires
                product == reserve_in * reserve_out,
                reserve_in * reserve_out < grown * reserve_out,
        ;
        lemma_multiply_divide_lt(product, grown, reserve_out);
    }
}

/// A quoted swap pays out less than the whole paying-out reserve, and pays
/// out something whenever anything is left of the payment after the fee.
pub proof fn lemma_swap_output_bounds(
    input_amount: int,
    reserve_in: int,
    reserve_out: int,
    fee_bps: int,
)
    requires
        0 <= input_amount,
        0 <= reserve_in,
        0 <= reserve_out,
        0 <= fee_bps,
        quote_failure(input_amount, reserve_in, reserve_out, fee_bps) is None,
    ensures
        0 <= output_amount(input_amount, reserve_in, reserve_out, fee_bps) < reserve_out,
        0 < reserve_out_after(input_amount, reserve_in, reserve_out, fee_bps) <= reserve_out,
        net_input(input_amount, fee_bps) > 0 ==> output_amount(
            input_amount,
            reserve_in,
            reserve_out,
            fee_bps,
        ) > 0,
{
    lemma_reserve_out_shrinks(reserve_in, reserve_out, net_input(input_amount, fee_bps));
}

/// Accepts a deposit only if it keeps the ratio between the reserves
/// exactly; any other is refused with `RatioMismatch`.
pub fn verify_deposit(delta_x: u64, delta_y: u64, reserve_x: u64, reserve_y: u64) -> (r: Result<
    (),
    AMMError,
>)
    ensures
        match r {
            Ok(_) => ratio_preserved(
                delta_x as int,
                delta_y as int,
                reserve_x as int,
                reserve_y as int,
            ),
            Err(e) => e == AMMError::RatioMismatch && !ratio_preserved(
                delta_x as int,
                delta_y as int,
                reserve_x as int,
                reserve_y as int,
            ),
        },
{
    // Both sides of the test share the term reserve_x * reserve_y; what is
    // left of each fits in 128 bits, which the whole sides need not.
    let left: u128 = wide_product(reserve_x, delta_y);
    let right: u128 = wide_product(delta_x, reserve_y);
    proof {
        assert(reserve_x * (reserve_y + delta_y) == reserve_x * reserve_y + reserve_x * delta_y)
            by (nonlinear_arith);
        assert((reserve_x + delta_x) * reserve_y == reserve_x * reserve_y + delta_x * reserve_y)
            by (nonlinear_arith);
    }
    if left == right {
        Ok(())
    } else {
        Err(AMMError::RatioMismatch)
    }
}

/// Quotes a swap of `input_amount` against the reserves `reserve_in` and
/// `reserve_out`, at a fee of `fee_bps` basis points taken from the payment.
///
/// The quote is the same for either side: `input_side` only says which asset
/// the caller pays in, and the caller passes the reserves in that order.
#[allow(unused_variables)]
pub fn compute_swap_output(
    input_side: LiquidityPair,
    input_amount: u64,
    reserve_in: u64,
    reserve_out: u64,
    fee_bps: u16,
) -> (r: Result<SwapToken, AMMError>)
    ensures
        match r {
            Ok(quote) => {
                &&& quote_failure(
                    input_amount as int,
                    reserve_in as int,
                    reserve_out as int,
                    fee_bps as int,
                ) is None
                &&& quote.input_amount == input_amount
                &&& quote.fee_amount == fee_amount(input_amount as int, fee_bps as int)
                &&& quote.output_amount == output_amount(
                    input_amount as int,
                    reserve_in as int,
                    reserve_out as int,
                    fee_bps as int,
                )
                &&& quote.output_amount < reserve_out
                &&& quote.fee_amount < input_amount ==> quote.output_amount > 0
            },
            Err(e) => quote_failure(
                input_amount as int,
                reserve_in as int,
                reserve_out as int,
                fee_bps as int,
            ) == Some(e),
        },
{
    if reserve_in == 0 || reserve_out == 0 || input_amount == 0 {
        return Err(AMMError::ZeroBalance);
    }
    let fee: u64 = mul_div(input_amount, fee_bps as u64, BASIS_POINTS)?;
    let net: u64 = crate::fixed_point::sub(input_amount, fee)?;
    let grown: u64 = crate::fixed_point::add(reserve_in, net)?;
    proof {
        lemma_reserve_out_shrinks(reserve_in as int, reserve_out as int, net as int);
    }
    let remaining: u64 = mul_div(reserve_in, reserve_out, grown)?;
    if remaining == 0 {
        return Err(AMMError::ZeroBalance);
    }
    Ok(SwapToken { input_amount, output_amount: reserve_out - remaining, fee_amount: fee })
}

} // verus!
