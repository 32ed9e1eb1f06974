//! The operations on a pool: opening it, depositing, withdrawing,
//! swapping, and locking.
//!
//! Each operation first decides whether it can go ahead, and with which
//! amounts. Only then does it touch the pool, and then it replaces all
//! balances at once: a pool is never left half updated, and a refused
//! operation leaves it exactly as it was. What an operation returns tells
//! the caller which amounts to move; moving them is the caller's business.

use crate::curve::{
    compute_swap_output,
    fee_amount,
    output_amount,
    quote_failure,
    ratio_preserved,
    verify_deposit,
    LiquidityPair,
    SwapToken,
};
use crate::error::AMMError;
use crate::fixed_point::{mul_div, precision_scale, MAX_PRECISION};
use crate::liquidity::{
    deposit_shares,
    initial_shares,
    initial_shares_policy,
    lemma_withdraw_amount_bounds,
    reserves_for_withdraw,
    shares_for_deposit,
    withdraw_amount,
    WithdrawAsset,
};
use crate::state::{authority_bytes, Config, Identity, LiquidityPool, PoolState, MAX_FEE};
use vstd::prelude::*;

verus! {

/// What a deposit moved: the amounts paid into each reserve and the shares
/// minted for them.
#[derive(Clone, Copy, Debug, PartialEq, Eq, Structural)]
pub struct DepositAsset {
    pub amount_x: u64,
    pub amount_y: u64,
    pub shares: u64,
}

/// Why a pool cannot be opened, if it cannot: a fee rate above one hundred
/// percent or a precision whose scale does not fit in 64 bits; else an
/// initial amount of zero.
pub open spec fn initialize_refusal(fee: int, initial_x: int, initial_y: int, precision: int) -> Option<
    AMMError,
> {
    if fee > MAX_FEE || precision > MAX_PRECISION {
        Some(AMMError::InvalidPrecision)
    } else if initial_x == 0 || initial_y == 0 {
        Some(AMMError::InvalidAmount)
    } else {
        None
    }
}

/// The state of a newly opened pool: unlocked, holding the initial
/// amounts, with their geometric mean as share supply.
pub open spec fn initialize_result(
    seed: u64,
    fee: nat,
    authority: Option<Seq<u8>>,
    initial_x: nat,
    initial_y: nat,
    precision: nat,
) -> PoolState {
    PoolState {
        seed,
        authority,
        fee_bps: fee,
        locked: false,
        precision,
        reserve_x: initial_x,
        reserve_y: initial_y,
        share_supply: initial_shares(initial_x as int, initial_y as int) as nat,
    }
}

/// The amount of Y that goes with `delta_x` of X at the pool's ratio,
/// rounded down.
pub open spec fn paired_amount(delta_x: int, reserve_x: int, reserve_y: int) -> int {
    (delta_x * reserve_y) / reserve_x
}

/// Why a deposit is refused, if it is. The tests are made in this order: a
/// locked pool; an empty pool, which has no ratio; a paired amount beyond 64
/// bits; a paired amount that rounding has moved off the ratio; a number of
/// shares beyond 64 bits; an amount above the caller's limit; a balance
/// that would outgrow 64 bits.
pub open spec fn deposit_refusal(state: PoolState, amount: nat, max_x: nat, max_y: nat) -> Option<
    AMMError,
> {
    let delta_y = paired_amount(amount as int, state.reserve_x as int, state.reserve_y as int);
    let shares = deposit_shares(amount as int, state.reserve_x as int, state.share_supply as int);
    if state.locked {
        Some(AMMError::PoolLocked)
    } else if state.is_empty() {
        Some(AMMError::ZeroBalance)
    } else if delta_y > u64::MAX {
        Some(AMMError::Overflow)
    } else if !ratio_preserved(
        amount as int,
        delta_y,
        state.reserve_x as int,
        state.reserve_y as int,
    ) {
        Some(AMMError::RatioMismatch)
    } else if shares > u64::MAX {
        Some(AMMError::Overflow)
    } else if amount > max_x || delta_y > max_y {
        Some(AMMError::SlippageExceeded)
    } else if state.reserve_x + amount > u64::MAX || state.reserve_y + delta_y > u64::MAX
        || state.share_supply + shares > u64::MAX {
        Some(AMMError::Overflow)
    } else {
        None
    }
}

/// The state after a deposit of `amount` of X and the amount of Y that
/// goes with it.
pub open spec fn deposit_result(state: PoolState, amount: nat) -> PoolState {
    let delta_y = paired_amount(amount as int, state.reserve_x as int, state.reserve_y as int);
    let shares = deposit_shares(amount as int, state.reserve_x as int, state.share_supply as int);
    state.with_balances(
        state.reserve_x + amount,
        (state.reserve_y + delta_y) as nat,
        (state.share_supply + shares) as nat,
    )
}

/// Why a withdrawal is refused, if it is: a locked pool; no shares, or
/// more than exist; a payout below the caller's limit.
pub open spec fn withdraw_refusal(state: PoolState, shares: nat, min_x: nat, min_y: nat) -> Option<
    AMMError,
> {
    if state.locked {
        Some(AMMError::PoolLocked)
    } else if shares == 0 || shares > state.share_supply {
        Some(AMMError::InsufficientBalance)
    } else if withdraw_amount(state.reserve_x as int, shares as int, state.share_supply as int)
        < min_x || withdraw_amount(
        state.reserve_y as int,
        shares as int,
        state.share_supply as int,
    ) < min_y {
        Some(AMMError::SlippageExceeded)
    } else {
        None
    }
}

/// The state after `shares` were burnt and their part of each reserve paid
/// out.
pub open spec fn withdraw_result(state: PoolState, shares: nat) -> PoolState {
    state.with_balances(
        (state.reserve_x - withdraw_amount(
            state.reserve_x as int,
            shares as int,
            state.share_supply as int,
        )) as nat,
        (state.reserve_y - withdraw_amount(
            state.reserve_y as int,
            shares as int,
            state.share_supply as int,
        )) as nat,
        (state.share_supply - shares) as nat,
    )
}

/// The reserve that a swap pays into.
pub open spec fn reserve_in(state: PoolState, is_x: bool) -> nat {
    if is_x {
        state.reserve_x
    } else {
        state.reserve_y
    }
}

/// The reserve that a swap pays out of.
pub open spec fn reserve_out(state: PoolState, is_x: bool) -> nat {
    if is_x {
        state.reserve_y
    } else {
        state.reserve_x
    }
}

/// What a swap of `amount` pays out.
pub open spec fn swap_output(state: PoolState, is_x: bool, amount: nat) -> int {
    output_amount(
        amount as int,
        reserve_in(state, is_x) as int,
        reserve_out(state, is_x) as int,
        state.fee_bps as int,
    )
}

/// Why a swap is refused, if it is. The tests are made in this order: a
/// locked pool; a payment of zero; a swap that cannot be quoted; a payout
/// below the caller's limit; a payout of zero; a paying-in reserve that
/// would outgrow 64 bits.
pub open spec fn swap_refusal(state: PoolState, is_x: bool, amount: nat, min: nat) -> Option<
    AMMError,
> {
    let unquoted = quote_failure(
        amount as int,
        reserve_in(state, is_x) as int,
        reserve_out(state, is_x) as int,
        state.fee_bps as int,
    );
    if state.locked {
        Some(AMMError::PoolLocked)
    } else if amount == 0 {
        Some(AMMError::InvalidAmount)
    } else if unquoted is Some {
        unquoted
    } else if swap_output(state, is_x, amount) < min {
        Some(AMMError::SlippageExceeded)
    } else if swap_output(state, is_x, amount) == 0 {
        Some(AMMError::InvalidAmount)
    } else if reserve_in(state, is_x) + amount > u64::MAX {
        Some(AMMError::Overflow)
    } else {
        None
    }
}

/// The state after a swap: the whole payment, fee included, has joined one
/// reserve, and the payout has left the other.
pub open spec fn swap_result(state: PoolState, is_x: bool, amount: nat) -> PoolState {
    let grown = reserve_in(state, is_x) + amount;
    let shrunk = (reserve_out(state, is_x) - swap_output(state, is_x, amount)) as nat;
    if is_x {
        state.with_balances(grown, shrunk, state.share_supply)
    } else {
        state.with_balances(shrunk, grown, state.share_supply)
    }
}

/// Whether `caller` may lock and unlock the pool: only the pool's
/// authority may, and a pool without one can never be locked.
pub open spec fn may_toggle(state: PoolState, caller: Seq<u8>) -> bool {
    state.authority == Some(caller)
}

/// The state after `caller` asked for the pool to be locked.
pub open spec fn lock_result(state: PoolState, caller: Seq<u8>) -> PoolState {
    if may_toggle(state, caller) {
        state.with_locked(true)
    } else {
        state
    }
}

/// The state after `caller` asked for the pool to be unlocked.
pub open spec fn unlock_result(state: PoolState, caller: Seq<u8>) -> PoolState {
    if may_toggle(state, caller) {
        state.with_locked(false)
    } else {
        state
    }
}

/// Opens a pool with the given settings and initial amounts of both
/// assets. The first shares are the geometric mean of the two amounts.
pub fn initialize(
    seed: u64,
    fee: u16,
    authority: Option<Identity>,
    initial_x: u64,
    initial_y: u64,
    precision: u8,
) -> (r: Result<LiquidityPool, AMMError>)
    ensures
        match r {
            Ok(pool) => {
                &&& initialize_refusal(
                    fee as int,
                    initial_x as int,
                    initial_y as int,
                    precision as int,
                ) is None
                &&& pool@ == initialize_result(
                    seed,
                    fee as nat,
                    authority_bytes(authority),
                    initial_x as nat,
                    initial_y as nat,
                    precision as nat,
                )
                &&& pool@.inv()
                &&& pool@.share_supply > 0
            },
            Err(e) => initialize_refusal(
                fee as int,
                initial_x as int,
                initial_y as int,
                precision as int,
            ) == Some(e),
        },
{
    if fee > MAX_FEE {
        return Err(AMMError::InvalidPrecision);
    }
    let _ = precision_scale(precision)?;
    if initial_x == 0 || initial_y == 0 {
        return Err(AMMError::InvalidAmount);
    }
    let shares = initial_shares_policy(initial_x, initial_y);
    let config = Config { seed, authority, fee, locked: false, precision };
    LiquidityPool::new(config, initial_x, initial_y, shares)
}

/// Deposits `amount` of X together with the amount of Y that keeps the
/// ratio, and mints shares in proportion. The deposit is refused if it
/// would take more than `max_x` of X or `max_y` of Y.
pub fn deposit(pool: &mut LiquidityPool, amount: u64, max_x: u64, max_y: u64) -> (r: Result<
    DepositAsset,
    AMMError,
>)
    ensures
        match r {
            Ok(paid) => {
                &&& deposit_refusal(old(pool)@, amount as nat, max_x as nat, max_y as nat) is None
                &&& final(pool)@ == deposit_result(old(pool)@, amount as nat)
                &&& paid.amount_x == amount
                &&& paid.amount_y == paired_amount(
                    amount as int,
                    old(pool)@.reserve_x as int,
                    old(pool)@.reserve_y as int,
                )
                &&& paid.shares == deposit_shares(
                    amount as int,
                    old(pool)@.reserve_x as int,
                    old(pool)@.share_supply as int,
                )
                &&& paid.amount_x <= max_x
                &&& paid.amount_y <= max_y
            },
            Err(e) => {
                &&& deposit_refusal(old(pool)@, amount as nat, max_x as nat, max_y as nat) == Some(
                    e,
                )
                &&& *final(pool) == *old(pool)
            },
        },
{
    proof {
        use_type_invariant(&*pool);
    }
    if pool.locked() {
        return Err(AMMError::PoolLocked);
    }
    if pool.share_supply() == 0 {
        return Err(AMMError::ZeroBalance);
    }
    let reserve_x = pool.reserve_x();
    let reserve_y = pool.reserve_y();
    let share_supply = pool.share_supply();
    let delta_y: u64 = mul_div(amount, reserve_y, reserve_x)?;
    verify_deposit(amount, delta_y, reserve_x, reserve_y)?;
    let shares: u64 = shares_for_deposit(amount, reserve_x, share_supply)?;
    if amount > max_x || delta_y > max_y {
        return Err(AMMError::SlippageExceeded);
    }
    let grown_x: u64 = crate::fixed_point::add(reserve_x, amount)?;
    let grown_y: u64 = crate::fixed_point::add(reserve_y, delta_y)?;
    let grown_supply: u64 = crate::fixed_point::add(share_supply, shares)?;
    pool.set_balances(grown_x, grown_y, grown_supply);
    Ok(DepositAsset { amount_x: amount, amount_y: delta_y, shares })
}

/// Burns `shares` and pays out their part of each reserve. The withdrawal
/// is refused if it would pay less than `min_x` of X or `min_y` of Y.
pub fn withdraw(pool: &mut LiquidityPool, shares: u64, min_x: u64, min_y: u64) -> (r: Result<
    WithdrawAsset,
    AMMError,
>)
    ensures
        match r {
            Ok(paid) => {
                &&& withdraw_refusal(old(pool)@, shares as nat, min_x as nat, min_y as nat) is None
                &&& final(pool)@ == withdraw_result(old(pool)@, shares as nat)
                &&& paid.amount_x == withdraw_amount(
                    old(pool)@.reserve_x as int,
                    shares as int,
                    old(pool)@.share_supply as int,
                )
                &&& paid.amount_y == withdraw_amount(
                    old(pool)@.reserve_y as int,
                    shares as int,
                    old(pool)@.share_supply as int,
                )
                &&& min_x <= paid.amount_x <= old(pool)@.reserve_x
                &&& min_y <= paid.amount_y <= old(pool)@.reserve_y
            },
            Err(e) => {
                &&& withdraw_refusal(old(pool)@, shares as nat, min_x as nat, min_y as nat)
                    == Some(e)
                &&& *final(pool) == *old(pool)
            },
        },
{
    proof {
        use_type_invariant(&*pool);
    }
    if pool.locked() {
        return Err(AMMError::PoolLocked);
    }
    let reserve_x = pool.reserve_x();
    let reserve_y = pool.reserve_y();
    let share_supply = pool.share_supply();
    let paid = reserves_for_withdraw(shares, share_supply, reserve_x, reserve_y)?;
    if paid.amount_x < min_x || paid.amount_y < min_y {
        return Err(AMMError::SlippageExceeded);
    }
    proof {
        lemma_withdraw_amount_bounds(reserve_x as int, shares as int, share_supply as int);
        lemma_withdraw_amount_bounds(reserve_y as int, shares as int, share_supply as int);
    }
    pool.set_balances(reserve_x - paid.amount_x, reserve_y - paid.amount_y, share_supply - shares);
    Ok(paid)
}

/// Swaps `amount` of one asset, X if `is_x` and Y if not, for the other.
/// The swap is refused if it would pay out less than `min`.
pub fn swap(pool: &mut LiquidityPool, is_x: bool, amount: u64, min: u64) -> (r: Result<
    SwapToken,
    AMMError,
>)
    ensures
        match r {
            Ok(quote) => {
                &&& swap_refusal(old(pool)@, is_x, amount as nat, min as nat) is None
                &&& final(pool)@ == swap_result(old(pool)@, is_x, amount as nat)
                &&& quote.input_amount == amount
                &&& quote.fee_amount == fee_amount(amount as int, old(pool)@.fee_bps as int)
                &&& quote.output_amount == swap_output(old(pool)@, is_x, amount as nat)
                &&& min <= quote.output_amount
                &&& 0 < quote.output_amount < reserve_out(old(pool)@, is_x)
            },
            Err(e) => {
                &&& swap_refusal(old(pool)@, is_x, amount as nat, min as nat) == Some(e)
                &&& *final(pool) == *old(pool)
            },
        },
{
    proof {
        use_type_invariant(&*pool);
    }
    if pool.locked() {
        return Err(AMMError::PoolLocked);
    }
    if amount == 0 {
        return Err(AMMError::InvalidAmount);
    }
    let share_supply = pool.share_supply();
    let (side, paying_in, paying_out) = if is_x {
        (LiquidityPair::X, pool.reserve_x(), pool.reserve_y())
    } else {
        (LiquidityPair::Y, pool.reserve_y(), pool.reserve_x())
    };
    let quote = compute_swap_output(side, amount, paying_in, paying_out, pool.fee())?;
    if quote.output_amount < min {
        return Err(AMMError::SlippageExceeded);
    }
    if quote.output_amount == 0 {
        return Err(AMMError::InvalidAmount);
    }
    let grown: u64 = crate::fixed_point::add(paying_in, amount)?;
    let shrunk: u64 = paying_out - quote.output_amount;
    if is_x {
        pool.set_balances(grown, shrunk, share_supply);
    } else {
        pool.set_balances(shrunk, grown, share_supply);
    }
    Ok(quote)
}

/// Locks the pool, if `caller` is its authority. Locking a locked pool
/// changes nothing.
pub fn lock(pool: &mut LiquidityPool, caller: &Identity) -> (r: Result<(), AMMError>)
    ensures
        final(pool)@ == lock_result(old(pool)@, caller@),
        match r {
            Ok(_) => may_toggle(old(pool)@, caller@) && final(pool)@.locked,
            Err(e) => e == AMMError::InvalidAuthority && !may_toggle(old(pool)@, caller@)
                && *final(pool) == *old(pool),
        },
{
    if !pool.is_authority(caller) {
        return Err(AMMError::InvalidAuthority);
    }
    pool.set_locked(true);
    Ok(())
}

/// Unlocks the pool, if `caller` is its authority. Unlocking an unlocked
/// pool changes nothing.
pub fn unlock(pool: &mut LiquidityPool, caller: &Identity) -> (r: Result<(), AMMError>)
    ensures
        final(pool)@ == unlock_result(old(pool)@, caller@),
        match r {
            Ok(_) => may_toggle(old(pool)@, caller@) && !final(pool)@.locked,
            Err(e) => e == AMMError::InvalidAuthority && !may_toggle(old(pool)@, caller@)
                && *final(pool) == *old(pool),
        },
{
    if !pool.is_authority(caller) {
        return Err(AMMError::InvalidAuthority);
    }
    pool.set_locked(false);
    Ok(())
}

} // verus!
