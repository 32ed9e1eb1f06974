//! What holds of every pool, whatever is done to it.
//!
//! Each law is stated over `PoolState` and the functions by which the
//! operations' contracts say what they do, and is proved for all inputs.

use crate::curve::{
    fee_amount,
    lemma_fee_within_input,
    lemma_swap_output_bounds,
    net_input,
    ratio_preserved,
    reserve_out_after,
};
use crate::error::AMMError;
use crate::liquidity::{deposit_shares, lemma_withdraw_amount_bounds, withdraw_amount};
use crate::operations::{
    deposit_refusal,
    deposit_result,
    lock_result,
    paired_amount,
    reserve_in,
    reserve_out,
    swap_output,
    swap_refusal,
    swap_result,
    unlock_result,
    withdraw_refusal,
    withdraw_result,
};
use crate::state::PoolState;
use vstd::arithmetic::div_mod::{
    lemma_fundamental_div_mod,
    lemma_fundamental_div_mod_converse,
    lemma_mod_pos_bound,
    lemma_multiply_divide_lt,
};
use vstd::prelude::*;

verus! {

/// What rounding down takes off the paying-out reserve in a swap: the
/// remainder of dividing the product of the reserves by the grown paying-in
/// reserve.
pub open spec fn swap_truncation(state: PoolState, is_x: bool, amount: nat) -> int {
    ((reserve_in(state, is_x) * reserve_out(state, is_x)) as int) % (reserve_in(state, is_x)
        + net_input(amount as int, state.fee_bps as int))
}

/// What the fee adds to the product of the reserves in a swap: the fee
/// times the paying-out reserve that is left.
pub open spec fn swap_fee_gain(state: PoolState, is_x: bool, amount: nat) -> int {
    fee_amount(amount as int, state.fee_bps as int) * reserve_out(
        swap_result(state, is_x, amount),
        is_x,
    )
}

/// A deposit keeps the pool's rules, leaves the ratio between the reserves
/// exactly as it was, never lowers their product and raises it whenever
/// anything is deposited.
pub proof fn law_deposit_keeps_ratio(state: PoolState, amount: nat, max_x: nat, max_y: nat)
    requires
        state.inv(),
        deposit_refusal(state, amount, max_x, max_y) is None,
    ensures
        deposit_result(state, amount).inv(),
        deposit_result(state, amount).reserve_x * state.reserve_y == state.reserve_x
            * deposit_result(state, amount).reserve_y,
        deposit_result(state, amount).product() >= state.product(),
        amount > 0 ==> deposit_result(state, amount).product() > state.product(),
{
    let reserve_x = state.reserve_x as int;
    let reserve_y = state.reserve_y as int;
    let delta_x = amount as int;
    let delta_y = paired_amount(delta_x, reserve_x, reserve_y);
    let shares = deposit_shares(delta_x, reserve_x, state.share_supply as int);
    assert(0 <= delta_y) by {
        assert(0 <= delta_x * reserve_y) by (nonlinear_arith)
            requires
                0 <= delta_x,
                0 <= reserve_y,
        ;
        lemma_quotient_nonnegative(delta_x * reserve_y, reserve_x);
    }
    assert(0 <= shares) by {
        assert(0 <= state.share_supply * delta_x) by (nonlinear_arith)
            requires
                0 <= delta_x,
                0 <= state.share_supply,
        ;
        lemma_quotient_nonnegative(state.share_supply * delta_x, reserve_x);
    }
    assert((reserve_x + delta_x) * reserve_y == reserve_x * (reserve_y + delta_y));
    assert((reserve_x + delta_x) * (reserve_y + delta_y) >= reserve_x * reserve_y
        && (delta_x > 0 ==> (reserve_x + delta_x) * (reserve_y + delta_y) > reserve_x
        * reserve_y)) by (nonlinear_arith)
        requires
            0 < reserve_x,
            0 < reserve_y,
            0 <= delta_x,
            0 <= delta_y,
    ;
}

/// A swap keeps the pool's rules, changes no share, pays out something but
/// less than the whole paying-out reserve, and takes in the whole payment.
pub proof fn law_swap_leaves_reserve(state: PoolState, is_x: bool, amount: nat, min: nat)
    requires
        state.inv(),
        swap_refusal(state, is_x, amount, min) is None,
    ensures
        swap_result(state, is_x, amount).inv(),
        swap_result(state, is_x, amount).share_supply == state.share_supply,
        0 < swap_output(state, is_x, amount) < reserve_out(state, is_x),
        min <= swap_output(state, is_x, amount),
        reserve_out(swap_result(state, is_x, amount), is_x) == reserve_out(state, is_x)
            - swap_output(state, is_x, amount),
        reserve_in(swap_result(state, is_x, amount), is_x) == reserve_in(state, is_x) + amount,
{
    lemma_swap_output_bounds(
        amount as int,
        reserve_in(state, is_x) as int,
        reserve_out(state, is_x) as int,
        state.fee_bps as int,
    );
}

/// A swap changes the product of the reserves by what the fee adds less
/// what rounding takes off: the product does not fall exactly when the fee
/// makes up for the rounding.
pub proof fn law_swap_product(state: PoolState, is_x: bool, amount: nat, min: nat)
    requires
        state.inv(),
        swap_refusal(state, is_x, amount, min) is None,
    ensures
        swap_result(state, is_x, amount).product() == state.product() + swap_fee_gain(
            state,
            is_x,
            amount,
        ) - swap_truncation(state, is_x, amount),
        0 <= swap_truncation(state, is_x, amount) < reserve_in(state, is_x) + net_input(
            amount as int,
            state.fee_bps as int,
        ),
        0 <= swap_fee_gain(state, is_x, amount),
        swap_result(state, is_x, amount).product() >= state.product() <==> swap_fee_gain(
            state,
            is_x,
            amount,
        ) >= swap_truncation(state, is_x, amount),
{
    let paying_in = reserve_in(state, is_x) as int;
    let paying_out = reserve_out(state, is_x) as int;
    let fee = fee_amount(amount as int, state.fee_bps as int);
    let net = net_input(amount as int, state.fee_bps as int);
    let product = paying_in * paying_out;
    let grown = paying_in + net;
    let left = reserve_out_after(amount as int, paying_in, paying_out, state.fee_bps as int);
    law_swap_leaves_reserve(state, is_x, amount, min);
    lemma_swap_output_bounds(amount as int, paying_in, paying_out, state.fee_bps as int);
    assert(0 <= fee) by {
        assert(0 <= amount * state.fee_bps) by (nonlinear_arith)
            requires
                0 <= amount,
                0 <= state.fee_bps,
        ;
        lemma_quotient_nonnegative((amount * state.fee_bps) as int, 10_000);
    }
    assert(0 <= product) by (nonlinear_arith)
        requires
            product == paying_in * paying_out,
            0 <= paying_in,
            0 <= paying_out,
    ;
    lemma_fundamental_div_mod(product, grown);
    lemma_mod_pos_bound(product, grown);
    assert(reserve_out(swap_result(state, is_x, amount), is_x) == left);
    assert((paying_in + amount) * left == product + fee * left - product % grown)
        by (nonlinear_arith)
        requires
            product == grown * left + product % grown,
            grown == paying_in + net,
            net == amount - fee,
    ;
    assert(0 <= fee * left) by (nonlinear_arith)
        requires
            0 <= fee,
            0 <= left,
    ;
    assert(state.product() == product && swap_result(state, is_x, amount).product() == (paying_in
        + amount) * left) by (nonlinear_arith)
        requires
            state.product() == state.reserve_x * state.reserve_y,
            product == paying_in * paying_out,
            paying_in == reserve_in(state, is_x),
            paying_out == reserve_out(state, is_x),
            swap_result(state, is_x, amount).product() == swap_result(state, is_x, amount).reserve_x
                * swap_result(state, is_x, amount).reserve_y,
            reserve_in(swap_result(state, is_x, amount), is_x) == paying_in + amount,
            reserve_out(swap_result(state, is_x, amount), is_x) == left,
            is_x ==> paying_in == state.reserve_x && paying_out == state.reserve_y,
            !is_x ==> paying_in == state.reserve_y && paying_out == state.reserve_x,
            is_x ==> swap_result(state, is_x, amount).reserve_x == paying_in + amount
                && swap_result(state, is_x, amount).reserve_y == left,
            !is_x ==> swap_result(state, is_x, amount).reserve_y == paying_in + amount
                && swap_result(state, is_x, amount).reserve_x == left,
    ;
}

/// A swap whose fee makes up for what rounding takes off the paying-out
/// reserve does not lower the product of the reserves.
pub proof fn law_swap_keeps_product(state: PoolState, is_x: bool, amount: nat, min: nat)
    requires
        state.inv(),
        swap_refusal(state, is_x, amount, min) is None,
        swap_fee_gain(state, is_x, amount) >= swap_truncation(state, is_x, amount),
    ensures
        swap_result(state, is_x, amount).product() >= state.product(),
{
    law_swap_product(state, is_x, amount, min);
}

/// In a pool that obeys the rules the fee is never more than the payment,
/// so no swap is refused for a fee that cannot be withheld.
pub proof fn law_fee_within_payment(state: PoolState, is_x: bool, amount: nat, min: nat)
    requires
        state.inv(),
    ensures
        0 <= fee_amount(amount as int, state.fee_bps as int) <= amount,
        swap_refusal(state, is_x, amount, min) != Some(AMMError::Underflow),
{
    lemma_fee_within_input(amount as int, state.fee_bps as int);
}

/// A deposit that keeps the ratio mints the same shares whether they are
/// reckoned from the one asset or from the other.
pub proof fn law_shares_agree(
    delta_x: nat,
    delta_y: nat,
    reserve_x: nat,
    reserve_y: nat,
    share_supply: nat,
)
    requires
        reserve_x > 0,
        reserve_y > 0,
        ratio_preserved(delta_x as int, delta_y as int, reserve_x as int, reserve_y as int),
    ensures
        deposit_shares(delta_x as int, reserve_x as int, share_supply as int) == deposit_shares(
            delta_y as int,
            reserve_y as int,
            share_supply as int,
        ),
{
    let from_x = (share_supply * delta_x) as int;
    let from_y = (share_supply * delta_y) as int;
    let shares = from_x / (reserve_x as int);
    let rest_x = from_x % (reserve_x as int);
    let rest_y = from_y - shares * reserve_y;
    lemma_fundamental_div_mod(from_x, reserve_x as int);
    lemma_mod_pos_bound(from_x, reserve_x as int);
    assert(reserve_x * delta_y == delta_x * reserve_y) by (nonlinear_arith)
        requires
            ratio_preserved(delta_x as int, delta_y as int, reserve_x as int, reserve_y as int),
    ;
    assert(reserve_x * rest_y == rest_x * reserve_y) by (nonlinear_arith)
        requires
            from_x == share_supply * delta_x,
            from_y == share_supply * delta_y,
            reserve_x * delta_y == delta_x * reserve_y,
            from_x == reserve_x * shares + rest_x,
            rest_y == from_y - shares * reserve_y,
    ;
    assert(0 <= rest_y < reserve_y) by (nonlinear_arith)
        requires
            reserve_x * rest_y == rest_x * reserve_y,
            0 <= rest_x < reserve_x,
            0 < reserve_y,
    ;
    lemma_fundamental_div_mod_converse(from_y, reserve_y as int, shares, rest_y);
}

/// A withdrawal keeps the pool's rules and pays out no more than each
/// reserve holds. Burning every share empties the pool; burning fewer
/// leaves something of each reserve.
pub proof fn law_withdraw_keeps_rules(state: PoolState, shares: nat, min_x: nat, min_y: nat)
    requires
        state.inv(),
        withdraw_refusal(state, shares, min_x, min_y) is None,
    ensures
        withdraw_result(state, shares).inv(),
        withdraw_result(state, shares).reserve_x <= state.reserve_x,
        withdraw_result(state, shares).reserve_y <= state.reserve_y,
        withdraw_result(state, shares).share_supply == state.share_supply - shares,
        shares == state.share_supply <==> withdraw_result(state, shares).is_empty(),
{
    lemma_withdraw_amount_bounds(state.reserve_x as int, shares as int, state.share_supply as int);
    lemma_withdraw_amount_bounds(state.reserve_y as int, shares as int, state.share_supply as int);
}

/// Withdrawing at once the shares that a deposit minted pays back no more
/// than was deposited and brings the share supply back to what it was. The
/// withdrawal goes through whenever the deposit minted any share and the
/// caller sets no lower limit.
pub proof fn law_deposit_then_withdraw(state: PoolState, amount: nat, max_x: nat, max_y: nat)
    requires
        state.inv(),
        deposit_refusal(state, amount, max_x, max_y) is None,
    ensures
        ({
            let shares = deposit_shares(
                amount as int,
                state.reserve_x as int,
                state.share_supply as int,
            ) as nat;
            let delta_y = paired_amount(
                amount as int,
                state.reserve_x as int,
                state.reserve_y as int,
            );
            let after = deposit_result(state, amount);
            &&& shares > 0 ==> withdraw_refusal(after, shares, 0, 0) is None
            &&& withdraw_amount(after.reserve_x as int, shares as int, after.share_supply as int)
                <= amount
            &&& withdraw_amount(after.reserve_y as int, shares as int, after.share_supply as int)
                <= delta_y
            &&& withdraw_result(after, shares).share_supply == state.share_supply
        }),
{
    let reserve_x = state.reserve_x as int;
    let reserve_y = state.reserve_y as int;
    let supply = state.share_supply as int;
    let delta_x = amount as int;
    let delta_y = paired_amount(delta_x, reserve_x, reserve_y);
    let shares = deposit_shares(delta_x, reserve_x, supply);
    law_deposit_keeps_ratio(state, amount, max_x, max_y);
    assert(0 <= supply * delta_x) by (nonlinear_arith)
        requires
            0 <= supply,
            0 <= delta_x,
    ;
    assert(0 <= delta_x * reserve_y) by (nonlinear_arith)
        requires
            0 <= delta_x,
            0 <= reserve_y,
    ;
    lemma_quotient_nonnegative(supply * delta_x, reserve_x);
    lemma_quotient_nonnegative(delta_x * reserve_y, reserve_x);
    lemma_fundamental_div_mod(supply * delta_x, reserve_x);
    lemma_mod_pos_bound(supply * delta_x, reserve_x);
    assert(shares * reserve_x <= supply * delta_x) by (nonlinear_arith)
        requires
            supply * delta_x == reserve_x * shares + (supply * delta_x) % reserve_x,
            0 <= (supply * delta_x) % reserve_x,
    ;
    // The ratio is kept exactly, so the same bound holds on the other side.
    assert(reserve_x * delta_y == delta_x * reserve_y) by (nonlinear_arith)
        requires
            ratio_preserved(delta_x, delta_y, reserve_x, reserve_y),
    ;
    assert(shares * reserve_y <= supply * delta_y) by (nonlinear_arith)
        requires
            shares * reserve_x <= supply * delta_x,
            reserve_x * delta_y == delta_x * reserve_y,
            0 < reserve_x,
            0 <= reserve_y,
            0 <= shares,
            0 <= supply,
            0 <= delta_x,
            0 <= delta_y,
    ;
    lemma_paid_back_within(reserve_x, delta_x, supply, shares);
    lemma_paid_back_within(reserve_y, delta_y, supply, shares);
}

/// Asking twice for the lock does what asking once does, and asking for
/// it touches nothing but the lock.
pub proof fn law_lock_idempotent(state: PoolState, caller: Seq<u8>)
    ensures
        lock_result(lock_result(state, caller), caller) == lock_result(state, caller),
        state.locked ==> lock_result(state, caller) == state,
        lock_result(state, caller) == state.with_locked(lock_result(state, caller).locked),
        lock_result(state, caller).inv() == state.inv(),
{
}

/// Asking twice for the pool to be unlocked does what asking once does,
/// and asking for it touches nothing but the lock.
pub proof fn law_unlock_idempotent(state: PoolState, caller: Seq<u8>)
    ensures
        unlock_result(unlock_result(state, caller), caller) == unlock_result(state, caller),
        !state.locked ==> unlock_result(state, caller) == state,
        unlock_result(state, caller) == state.with_locked(unlock_result(state, caller).locked),
        unlock_result(state, caller).inv() == state.inv(),
{
}

/// While a pool is locked, deposits, withdrawals and swaps are all
/// refused, whatever the amounts.
pub proof fn law_locked_refuses(
    state: PoolState,
    is_x: bool,
    amount: nat,
    first_limit: nat,
    second_limit: nat,
)
    requires
        state.locked,
    ensures
        deposit_refusal(state, amount, first_limit, second_limit) == Some(
            AMMError::PoolLocked,
        ),
        withdraw_refusal(state, amount, first_limit, second_limit) == Some(
            AMMError::PoolLocked,
        ),
        swap_refusal(state, is_x, amount, first_limit) == Some(AMMError::PoolLocked),
{
}

/// A pool that was emptied stays empty: it takes no deposit, pays no
/// withdrawal and quotes no swap.
pub proof fn law_empty_is_final(
    state: PoolState,
    is_x: bool,
    amount: nat,
    first_limit: nat,
    second_limit: nat,
)
    requires
        state.inv(),
        state.is_empty(),
    ensures
        deposit_refusal(state, amount, first_limit, second_limit) is Some,
        withdraw_refusal(state, amount, first_limit, second_limit) is Some,
        swap_refusal(state, is_x, amount, first_limit) is Some,
{
}

/// No deposit, withdrawal or swap changes the fee rate, the precision, the
/// authority, the seed or the lock.
pub proof fn law_settings_fixed(state: PoolState, is_x: bool, amount: nat)
    ensures
        same_settings(state, deposit_result(state, amount)),
        same_settings(state, withdraw_result(state, amount)),
        same_settings(state, swap_result(state, is_x, amount)),
{
}

/// Whether two states differ in their balances at most.
pub open spec fn same_settings(before: PoolState, after: PoolState) -> bool {
    &&& after.seed == before.seed
    &&& after.authority == before.authority
    &&& after.fee_bps == before.fee_bps
    &&& after.precision == before.precision
    &&& after.locked == before.locked
}

/// A quotient of a number that is not negative by a positive one is not
/// negative.
proof fn lemma_quotient_nonnegative(x: int, d: int)
    requires
        0 <= x,
        0 < d,
    ensures
        0 <= x / d,
{
    lemma_fundamental_div_mod(x, d);
    lemma_mod_pos_bound(x, d);
    assert(0 <= x / d) by (nonlinear_arith)
        requires
            0 <= x,
            0 < d,
            x == d * (x / d) + x % d,
            x % d < d,
    ;
}

/// If `shares` were minted for `delta` at no better a rate than `supply`
/// for `reserve`, burning them right away pays back at most `delta`.
proof fn lemma_paid_back_within(reserve: int, delta: int, supply: int, shares: int)
    requires
        0 <= reserve,
        0 <= delta,
        0 < supply,
        0 <= shares,
        shares * reserve <= supply * delta,
    ensures
        withdraw_amount(reserve + delta, shares, supply + shares) <= delta,
{
    assert((reserve + delta) * shares < (supply + shares) * (delta + 1)) by (nonlinear_arith)
        requires
            shares * reserve <= supply * delta,
            0 < supply,
            0 <= shares,
            0 <= delta,
    ;
    lemma_multiply_divide_lt((reserve + delta) * shares, supply + shares, delta + 1);
}

} // verus!
