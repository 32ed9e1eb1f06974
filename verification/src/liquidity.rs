//! Liquidity shares: how many a deposit mints and what a burnt share is
//! worth.
//!
//! The share supply stands for the whole pool. A deposit mints shares in
//! the proportion in which it grows the reserves; burning shares pays out
//! the same proportion of each reserve. Every quotient is rounded down, so
//! rounding never costs the pool anything.

use crate::error::AMMError;
use crate::fixed_point::{mul_div, wide_product};
use vstd::arithmetic::div_mod::{
    lemma_div_by_multiple,
    lemma_fundamental_div_mod,
    lemma_mod_pos_bound,
    lemma_multiply_divide_le,
};
use vstd::prelude::*;

verus! {

/// What a withdrawal pays out of each reserve.
#[derive(Clone, Copy, Debug, PartialEq, Eq, Structural)]
pub struct WithdrawAsset {
    pub amount_x: u64,
    pub amount_y: u64,
}

/// Whether `root` is the square root of `n`, rounded down.
pub open spec fn is_floor_sqrt(root: int, n: int) -> bool {
    0 <= root && root * root <= n < (root + 1) * (root + 1)
}

/// The square root of `n`, rounded down.
pub open spec fn floor_sqrt(n: int) -> int {
    choose|root: int| is_floor_sqrt(root, n)
}

/// The shares that the first deposit into an empty pool mints: the
/// geometric mean of the two amounts, rounded down.
pub open spec fn initial_shares(delta_x: int, delta_y: int) -> int {
    floor_sqrt(delta_x * delta_y)
}

/// The shares that a deposit of `delta_x` mints in a pool that holds
/// `reserve_x` against `share_supply` shares.
pub open spec fn deposit_shares(delta_x: int, reserve_x: int, share_supply: int) -> int {
    (share_supply * delta_x) / reserve_x
}

/// What burning `shares_burned` of `share_supply` shares pays out of
/// `reserve`.
pub open spec fn withdraw_amount(reserve: int, shares_burned: int, share_supply: int) -> int {
    (reserve * shares_burned) / share_supply
}

/// A number has at most one rounded-down square root.
pub proof fn lemma_floor_sqrt_unique(a: int, b: int, n: int)
    requires
        is_floor_sqrt(a, n),
        is_floor_sqrt(b, n),
    ensures
        a == b,
{
    if a < b {
        assert((a + 1) * (a + 1) <= b * b) by (nonlinear_arith)
            requires
                0 <= a,
                a + 1 <= b,
        ;
    }
    if b < a {
        assert((b + 1) * (b + 1) <= a * a) by (nonlinear_arith)
            requires
                0 <= b,
                b + 1 <= a,
        ;
    }
}

/// Whatever satisfies `is_floor_sqrt` is the value of `floor_sqrt`.
pub proof fn lemma_floor_sqrt_is(root: int, n: int)
    requires
        is_floor_sqrt(root, n),
    ensures
        floor_sqrt(n) == root,
{
    lemma_floor_sqrt_unique(root, floor_sqrt(n), n);
}

/// Two positive amounts have a positive geometric mean, and it is no
/// larger than the larger of the two.
pub proof fn lemma_initial_shares_bounds(delta_x: int, delta_y: int, shares: int)
    requires
        0 <= delta_x,
        0 <= delta_y,
        is_floor_sqrt(shares, delta_x * delta_y),
    ensures
        shares > 0 <==> delta_x > 0 && delta_y > 0,
        shares <= delta_x || shares <= delta_y,
{
    if delta_x > 0 && delta_y > 0 {
        assert(delta_x * delta_y >= 1) by (nonlinear_arith)
            requires
                delta_x >= 1,
                delta_y >= 1,
        ;
        assert(shares > 0) by (nonlinear_arith)
            requires
                0 <= shares,
                1 < (shares + 1) * (shares + 1),
        ;
    } else {
        assert(delta_x * delta_y == 0) by (nonlinear_arith)
            requires
                delta_x == 0 || delta_y == 0,
        ;
        assert(shares == 0) by (nonlinear_arith)
            requires
                0 <= shares,
                shares * shares <= 0,
        ;
    }
    if shares > delta_x && shares > delta_y {
        assert(shares * shares > delta_x * delta_y) by (nonlinear_arith)
            requires
                0 <= delta_x < shares,
                0 <= delta_y < shares,
        ;
    }
}

/// Burning shares pays out no more than the reserve holds, all of it when
/// every share is burnt and less when some remain, and rounding down loses
/// less than one unit.
pub proof fn lemma_withdraw_amount_bounds(reserve: int, shares_burned: int, share_supply: int)
    requires
        0 <= reserve,
        0 < shares_burned <= share_supply,
    ensures
        0 <= withdraw_amount(reserve, shares_burned, share_supply) <= reserve,
        shares_burned == share_supply ==> withdraw_amount(reserve, shares_burned, share_supply)
            == reserve,
        shares_burned < share_supply && reserve > 0 ==> withdraw_amount(
            reserve,
            shares_burned,
            share_supply,
        ) < reserve,
        withdraw_amount(reserve, shares_burned, share_supply) * share_supply <= reserve
            * shares_burned < (withdraw_amount(reserve, shares_burned, share_supply) + 1)
            * share_supply,
{
    let product = reserve * shares_burned;
    let paid = product / share_supply;
    assert(0 <= product <= share_supply * reserve) by (nonlinear_arith)
        requires
            product == reserve * shares_burned,
            0 <= reserve,
            0 < shares_burned <= share_supply,
    ;
    lemma_multiply_divide_le(product, share_supply, reserve);
    lemma_fundamental_div_mod(product, share_supply);
    lemma_mod_pos_bound(product, share_supply);
    assert(0 <= paid && paid * share_supply <= product < (paid + 1) * share_supply)
        by (nonlinear_arith)
        requires
            0 <= product,
            0 < share_supply,
            product == share_supply * paid + product % share_supply,
            0 <= product % share_supply < share_supply,
    ;
    if shares_burned == share_supply {
        lemma_div_by_multiple(reserve, share_supply);
    }
    if shares_burned < share_supply && reserve > 0 {
        assert(paid < reserve) by (nonlinear_arith)
            requires
                paid * share_supply <= product,
                product == reserve * shares_burned,
                0 < shares_burned < share_supply,
                0 < reserve,
                0 <= paid,
        ;
    }
}

/// The square root of `n`, rounded down.
pub fn integer_sqrt(n: u128) -> (root: u64)
    ensures
        is_floor_sqrt(root as int, n as int),
        root == floor_sqrt(n as int),
{
    let mut low: u128 = 0;
    let mut high: u128 = 0x1_0000_0000_0000_0000u128;
    assert(0x1_0000_0000_0000_0000int * 0x1_0000_0000_0000_0000int > u128::MAX);
    while high - low > 1
        invariant
            low < high <= 0x1_0000_0000_0000_0000u128,
            low * low <= n < high * high,
        decreases high - low,
    {
        let middle: u128 = low + (high - low) / 2;
        assert(middle * middle <= u128::MAX) by (nonlinear_arith)
            requires
                middle <= 0xffff_ffff_ffff_ffffu128,
        ;
        if middle * middle <= n {
            low = middle;
        } else {
            high = middle;
        }
    }
    proof {
        lemma_floor_sqrt_is(low as int, n as int);
    }
    low as u64
}

/// The shares minted by the first deposit into an empty pool: the
/// geometric mean of the two amounts, rounded down. There is no ratio yet
/// that the deposit could be measured against.
pub fn initial_shares_policy(delta_x: u64, delta_y: u64) -> (shares: u64)
    ensures
        shares == initial_shares(delta_x as int, delta_y as int),
        is_floor_sqrt(shares as int, delta_x * delta_y),
        shares > 0 <==> delta_x > 0 && delta_y > 0,
{
    let shares = integer_sqrt(wide_product(delta_x, delta_y));
    proof {
        lemma_initial_shares_bounds(delta_x as int, delta_y as int, shares as int);
    }
    shares
}

/// The shares that a deposit of `delta_x` mints in a pool that already
/// holds `reserve_x` against `share_supply` shares: the supply grows in the
/// proportion in which the reserve does, rounded down.
///
/// An empty pool has no proportion to go by and is refused with
/// `ZeroBalance`; its first shares come from `initial_shares_policy`. A
/// number of shares beyond 64 bits is refused with `Overflow`.
pub fn shares_for_deposit(delta_x: u64, reserve_x: u64, share_supply: u64) -> (r: Result<
    u64,
    AMMError,
>)
    ensures
        match r {
            Ok(shares) => reserve_x != 0 && share_supply != 0 && shares == deposit_shares(
                delta_x as int,
                reserve_x as int,
                share_supply as int,
            ),
            Err(e) => if reserve_x == 0 || share_supply == 0 {
                e == AMMError::ZeroBalance
            } else {
                e == AMMError::Overflow && deposit_shares(
                    delta_x as int,
                    reserve_x as int,
                    share_supply as int,
                ) > u64::MAX
            },
        },
{
    if reserve_x == 0 || share_supply == 0 {
        return Err(AMMError::ZeroBalance);
    }
    mul_div(share_supply, delta_x, reserve_x)
}

/// What burning `shares_burned` of the `share_supply` shares pays out of
/// the two reserves: the burnt part of each, rounded down.
///
/// Burning nothing, or more than exists, is refused with
/// `InsufficientBalance`. Burning every share pays out both reserves whole.
/// Otherwise rounding down keeps back less than one unit of each asset per
/// withdrawal, and what it keeps back stays in the pool.
pub fn reserves_for_withdraw(
    shares_burned: u64,
    share_supply: u64,
    reserve_x: u64,
    reserve_y: u64,
) -> (r: Result<WithdrawAsset, AMMError>)
    ensures
        match r {
            Ok(paid) => {
                &&& 0 < shares_burned <= share_supply
                &&& paid.amount_x == withdraw_amount(
                    reserve_x as int,
                    shares_burned as int,
                    share_supply as int,
                )
                &&& paid.amount_y == withdraw_amount(
                    reserve_y as int,
                    shares_burned as int,
                    share_supply as int,
                )
                &&& paid.amount_x <= reserve_x
                &&& paid.amount_y <= reserve_y
                &&& shares_burned == share_supply ==> paid.amount_x == reserve_x && paid.amount_y
                    == reserve_y
            },
            Err(e) => e == AMMError::InsufficientBalance && (shares_burned == 0 || shares_burned
                > share_supply),
        },
{
    if shares_burned == 0 || shares_burned > share_supply {
        return Err(AMMError::InsufficientBalance);
    }
    proof {
        lemma_withdraw_amount_bounds(reserve_x as int, shares_burned as int, share_supply as int);
        lemma_withdraw_amount_bounds(reserve_y as int, shares_burned as int, share_supply as int);
    }
    let amount_x: u64 = mul_div(reserve_x, shares_burned, share_supply)?;
    let amount_y: u64 = mul_div(reserve_y, shares_burned, share_supply)?;
    Ok(WithdrawAsset { amount_x, amount_y })
}

} // verus!
