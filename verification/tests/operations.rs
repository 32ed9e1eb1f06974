use amm_anchor::{
    deposit, initialize, lock, swap, unlock, withdraw, AMMError, Config, DepositAsset, Identity,
    LiquidityPool, SwapToken, WithdrawAsset,
};

fn identity(byte: u8) -> Identity {
    Identity { bytes: [byte; 32] }
}

fn even_pool() -> LiquidityPool {
    initialize(7, 30, Some(identity(1)), 1_000_000, 1_000_000, 6).unwrap()
}

fn uneven_pool() -> LiquidityPool {
    initialize(8, 30, Some(identity(1)), 1_000_000, 2_000_000, 6).unwrap()
}

#[test]
fn initialize_opens_an_unlocked_pool() {
    let pool = initialize(7, 30, Some(identity(1)), 1_000_000, 2_000_000, 6).unwrap();
    assert_eq!(pool.reserve_x(), 1_000_000);
    assert_eq!(pool.reserve_y(), 2_000_000);
    assert_eq!(pool.share_supply(), 1_414_213);
    assert_eq!(pool.fee(), 30);
    assert!(!pool.locked());
    assert_eq!(
        pool.config(),
        Config { seed: 7, authority: Some(identity(1)), fee: 30, locked: false, precision: 6 }
    );
}

#[test]
fn initialize_accepts_the_limits() {
    let pool = initialize(0, 10_000, None, 1, 1, 19).unwrap();
    assert_eq!(pool.share_supply(), 1);
    assert_eq!(pool.fee(), 10_000);
    let large = initialize(0, 0, None, u64::MAX, u64::MAX, 0).unwrap();
    assert_eq!(large.share_supply(), u64::MAX);
}

#[test]
fn initialize_refuses_a_fee_above_one_hundred_percent() {
    assert_eq!(initialize(7, 10_001, None, 1_000_000, 1_000_000, 6), Err(AMMError::InvalidPrecision));
    assert_eq!(initialize(7, u16::MAX, None, 1_000_000, 1_000_000, 6), Err(AMMError::InvalidPrecision));
}

#[test]
fn initialize_refuses_a_precision_that_does_not_fit() {
    assert_eq!(initialize(7, 30, None, 1_000_000, 1_000_000, 20), Err(AMMError::InvalidPrecision));
}

#[test]
fn initialize_refuses_an_empty_side() {
    assert_eq!(initialize(7, 30, None, 0, 1_000_000, 6), Err(AMMError::InvalidAmount));
    assert_eq!(initialize(7, 30, None, 1_000_000, 0, 6), Err(AMMError::InvalidAmount));
    assert_eq!(initialize(7, 30, None, 0, 0, 6), Err(AMMError::InvalidAmount));
    // The settings are looked at first.
    assert_eq!(initialize(7, 10_001, None, 0, 0, 6), Err(AMMError::InvalidPrecision));
}

#[test]
fn new_takes_stored_values_that_obey_the_rules() {
    let config = Config { seed: 3, authority: None, fee: 25, locked: true, precision: 9 };
    let pool = LiquidityPool::new(config, 10, 20, 30).unwrap();
    assert_eq!(pool.config(), config);
    assert_eq!(pool.reserve_x(), 10);
    assert_eq!(pool.reserve_y(), 20);
    assert_eq!(pool.share_supply(), 30);
    assert!(pool.locked());
    let empty = LiquidityPool::new(config, 0, 0, 0).unwrap();
    assert_eq!(empty.share_supply(), 0);
}

#[test]
fn new_refuses_stored_values_that_break_the_rules() {
    let config = Config { seed: 3, authority: None, fee: 25, locked: false, precision: 9 };
    assert_eq!(LiquidityPool::new(config, 0, 20, 30), Err(AMMError::ZeroBalance));
    assert_eq!(LiquidityPool::new(config, 10, 0, 30), Err(AMMError::ZeroBalance));
    assert_eq!(LiquidityPool::new(config, 10, 20, 0), Err(AMMError::ZeroBalance));
    assert_eq!(LiquidityPool::new(config, 0, 0, 30), Err(AMMError::ZeroBalance));
    let bad_fee = Config { fee: 10_001, ..config };
    assert_eq!(LiquidityPool::new(bad_fee, 10, 20, 30), Err(AMMError::InvalidPrecision));
    let bad_precision = Config { precision: 20, ..config };
    assert_eq!(LiquidityPool::new(bad_precision, 10, 20, 30), Err(AMMError::InvalidPrecision));
}

#[test]
fn deposit_adds_to_both_reserves_and_mints_shares() {
    let mut pool = uneven_pool();
    let paid = deposit(&mut pool, 500, 500, 1000).unwrap();
    assert_eq!(paid, DepositAsset { amount_x: 500, amount_y: 1000, shares: 707 });
    assert_eq!(pool.reserve_x(), 1_000_500);
    assert_eq!(pool.reserve_y(), 2_001_000);
    assert_eq!(pool.share_supply(), 1_414_920);
    assert_eq!(pool.fee(), 30);
}

#[test]
fn deposit_of_nothing_changes_nothing() {
    let mut pool = uneven_pool();
    let before = pool;
    assert_eq!(deposit(&mut pool, 0, 0, 0), Ok(DepositAsset { amount_x: 0, amount_y: 0, shares: 0 }));
    assert_eq!(pool, before);
}

#[test]
fn deposit_refuses_amounts_above_the_limits() {
    let mut pool = uneven_pool();
    let before = pool;
    assert_eq!(deposit(&mut pool, 500, 499, 1000), Err(AMMError::SlippageExceeded));
    assert_eq!(deposit(&mut pool, 500, 500, 999), Err(AMMError::SlippageExceeded));
    assert_eq!(pool, before);
}

#[test]
fn deposit_refuses_what_rounding_moves_off_the_ratio() {
    // 3 : 2, so one more X would need two thirds of a Y.
    let mut pool = initialize(1, 0, None, 3, 2, 6).unwrap();
    let before = pool;
    assert_eq!(deposit(&mut pool, 1, u64::MAX, u64::MAX), Err(AMMError::RatioMismatch));
    assert_eq!(pool, before);
    assert_eq!(
        deposit(&mut pool, 3, u64::MAX, u64::MAX),
        Ok(DepositAsset { amount_x: 3, amount_y: 2, shares: 2 })
    );
}

#[test]
fn deposit_refuses_balances_beyond_64_bits() {
    let mut pool = initialize(1, 0, None, u64::MAX - 10, u64::MAX - 10, 6).unwrap();
    let before = pool;
    assert_eq!(deposit(&mut pool, 20, u64::MAX, u64::MAX), Err(AMMError::Overflow));
    assert_eq!(pool, before);
    // The paired amount alone can be too large as well.
    let mut steep = initialize(1, 0, None, 1, u64::MAX, 6).unwrap();
    assert_eq!(deposit(&mut steep, 2, u64::MAX, u64::MAX), Err(AMMError::Overflow));
}

#[test]
fn deposit_into_an_empty_pool_is_refused() {
    let mut pool = even_pool();
    withdraw(&mut pool, 1_000_000, 0, 0).unwrap();
    assert_eq!(pool.share_supply(), 0);
    let before = pool;
    assert_eq!(deposit(&mut pool, 10, u64::MAX, u64::MAX), Err(AMMError::ZeroBalance));
    assert_eq!(pool, before);
}

#[test]
fn deposit_into_a_locked_pool_is_refused() {
    let mut pool = even_pool();
    lock(&mut pool, &identity(1)).unwrap();
    let before = pool;
    assert_eq!(deposit(&mut pool, 10, 10, 10), Err(AMMError::PoolLocked));
    assert_eq!(pool.reserve_x(), 1_000_000);
    assert_eq!(pool.reserve_y(), 1_000_000);
    assert_eq!(pool.share_supply(), 1_000_000);
    assert_eq!(pool, before);
}

#[test]
fn withdraw_pays_the_burnt_part() {
    let mut pool = uneven_pool();
    let paid = withdraw(&mut pool, 1000, 707, 1414).unwrap();
    assert_eq!(paid, WithdrawAsset { amount_x: 707, amount_y: 1414 });
    assert_eq!(pool.reserve_x(), 999_293);
    assert_eq!(pool.reserve_y(), 1_998_586);
    assert_eq!(pool.share_supply(), 1_413_213);
}

#[test]
fn withdraw_of_every_share_empties_the_pool() {
    let mut pool = uneven_pool();
    let paid = withdraw(&mut pool, 1_414_213, 0, 0).unwrap();
    assert_eq!(paid, WithdrawAsset { amount_x: 1_000_000, amount_y: 2_000_000 });
    assert_eq!(pool.reserve_x(), 0);
    assert_eq!(pool.reserve_y(), 0);
    assert_eq!(pool.share_supply(), 0);
}

#[test]
fn an_emptied_pool_stays_empty() {
    let mut pool = uneven_pool();
    withdraw(&mut pool, 1_414_213, 0, 0).unwrap();
    let empty = pool;
    assert_eq!(withdraw(&mut pool, 1, 0, 0), Err(AMMError::InsufficientBalance));
    assert_eq!(deposit(&mut pool, 1, 1, 1), Err(AMMError::ZeroBalance));
    assert_eq!(swap(&mut pool, false, 1, 0), Err(AMMError::ZeroBalance));
    assert_eq!(pool, empty);
}

#[test]
fn withdraw_of_nothing_or_too_much_is_refused() {
    let mut pool = uneven_pool();
    let before = pool;
    assert_eq!(withdraw(&mut pool, 0, 0, 0), Err(AMMError::InsufficientBalance));
    assert_eq!(withdraw(&mut pool, 1_414_214, 0, 0), Err(AMMError::InsufficientBalance));
    assert_eq!(pool, before);
}

#[test]
fn withdraw_refuses_payouts_below_the_limits() {
    let mut pool = uneven_pool();
    let before = pool;
    assert_eq!(withdraw(&mut pool, 1000, 708, 0), Err(AMMError::SlippageExceeded));
    assert_eq!(withdraw(&mut pool, 1000, 0, 1415), Err(AMMError::SlippageExceeded));
    assert_eq!(pool, before);
}

#[test]
fn withdraw_from_a_locked_pool_is_refused() {
    let mut pool = uneven_pool();
    lock(&mut pool, &identity(1)).unwrap();
    let before = pool;
    assert_eq!(withdraw(&mut pool, 1000, 0, 0), Err(AMMError::PoolLocked));
    assert_eq!(pool, before);
}

#[test]
fn swap_of_x_follows_the_formula() {
    let mut pool = even_pool();
    let quote = swap(&mut pool, true, 1000, 0).unwrap();
    assert_eq!(quote, SwapToken { input_amount: 1000, output_amount: 997, fee_amount: 3 });
    let expected = 1_000_000 - (1_000_000u128 * 1_000_000u128 / 1_000_997u128) as u64;
    assert_eq!(quote.output_amount, expected);
    assert_eq!(pool.reserve_x(), 1_001_000);
    assert_eq!(pool.reserve_y(), 999_003);
    assert_eq!(pool.share_supply(), 1_000_000);
}

#[test]
fn swap_of_y_follows_the_formula() {
    let mut pool = uneven_pool();
    let quote = swap(&mut pool, false, 2000, 997).unwrap();
    assert_eq!(quote, SwapToken { input_amount: 2000, output_amount: 997, fee_amount: 6 });
    assert_eq!(pool.reserve_x(), 999_003);
    assert_eq!(pool.reserve_y(), 2_002_000);
    assert_eq!(pool.share_supply(), 1_414_213);
}

#[test]
fn swap_refuses_a_payout_below_the_limit() {
    let mut pool = even_pool();
    let before = pool;
    let payout = 1_000_000 - (1_000_000u128 * 1_000_000u128 / 1_000_997u128) as u64;
    assert_eq!(swap(&mut pool, true, 1000, payout + 1), Err(AMMError::SlippageExceeded));
    assert_eq!(pool, before);
    assert_eq!(swap(&mut pool, true, 1000, u64::MAX), Err(AMMError::SlippageExceeded));
    assert_eq!(pool, before);
    assert!(swap(&mut pool, true, 1000, payout).is_ok());
}

#[test]
fn swap_of_nothing_is_refused() {
    let mut pool = even_pool();
    let before = pool;
    assert_eq!(swap(&mut pool, true, 0, 0), Err(AMMError::InvalidAmount));
    assert_eq!(swap(&mut pool, false, 0, 0), Err(AMMError::InvalidAmount));
    assert_eq!(pool, before);
}

#[test]
fn swap_that_pays_nothing_is_refused() {
    // At a fee of one hundred percent nothing is left to swap.
    let mut pool = initialize(1, 10_000, None, 1000, 1000, 6).unwrap();
    let before = pool;
    assert_eq!(swap(&mut pool, true, 100, 0), Err(AMMError::InvalidAmount));
    assert_eq!(swap(&mut pool, true, 100, 1), Err(AMMError::SlippageExceeded));
    assert_eq!(pool, before);
}

#[test]
fn swap_that_would_empty_a_reserve_is_refused() {
    let mut pool = initialize(1, 0, None, 1, 1, 6).unwrap();
    let before = pool;
    assert_eq!(swap(&mut pool, true, 5, 0), Err(AMMError::ZeroBalance));
    assert_eq!(pool, before);
}

#[test]
fn swap_on_an_empty_pool_is_refused() {
    let mut pool = even_pool();
    withdraw(&mut pool, 1_000_000, 0, 0).unwrap();
    let before = pool;
    assert_eq!(swap(&mut pool, true, 5, 0), Err(AMMError::ZeroBalance));
    assert_eq!(pool, before);
}

#[test]
fn swap_refuses_a_reserve_beyond_64_bits() {
    // Half the payment is fee: the reserve could take what is left of it,
    // but the whole payment is what the reserve has to take.
    let mut pool = initialize(1, 5_000, None, u64::MAX - 5, u64::MAX - 5, 6).unwrap();
    let before = pool;
    assert_eq!(swap(&mut pool, true, 10, 0), Err(AMMError::Overflow));
    assert_eq!(swap(&mut pool, true, 12, 0), Err(AMMError::Overflow));
    assert_eq!(pool, before);
}

#[test]
fn swap_on_a_locked_pool_is_refused() {
    let mut pool = even_pool();
    lock(&mut pool, &identity(1)).unwrap();
    let before = pool;
    assert_eq!(swap(&mut pool, true, 1000, 0), Err(AMMError::PoolLocked));
    // The lock is looked at before the amount.
    assert_eq!(swap(&mut pool, true, 0, 0), Err(AMMError::PoolLocked));
    assert_eq!(pool, before);
}

#[test]
fn lock_and_unlock_by_the_authority() {
    let mut pool = even_pool();
    assert_eq!(lock(&mut pool, &identity(1)), Ok(()));
    assert!(pool.locked());
    assert_eq!(unlock(&mut pool, &identity(1)), Ok(()));
    assert!(!pool.locked());
    assert_eq!(swap(&mut pool, true, 1000, 0).map(|quote| quote.output_amount), Ok(997));
}

#[test]
fn lock_and_unlock_by_anyone_else_are_refused() {
    let mut pool = even_pool();
    let before = pool;
    assert_eq!(lock(&mut pool, &identity(2)), Err(AMMError::InvalidAuthority));
    assert_eq!(pool, before);
    lock(&mut pool, &identity(1)).unwrap();
    let locked = pool;
    assert_eq!(unlock(&mut pool, &identity(2)), Err(AMMError::InvalidAuthority));
    assert_eq!(pool, locked);
    let mut nearly = [1u8; 32];
    nearly[31] = 0;
    assert_eq!(unlock(&mut pool, &Identity { bytes: nearly }), Err(AMMError::InvalidAuthority));
    assert!(pool.locked());
}

#[test]
fn a_pool_without_authority_can_never_be_locked() {
    let mut pool = initialize(7, 30, None, 1_000_000, 1_000_000, 6).unwrap();
    let before = pool;
    assert_eq!(lock(&mut pool, &identity(0)), Err(AMMError::InvalidAuthority));
    assert_eq!(lock(&mut pool, &identity(1)), Err(AMMError::InvalidAuthority));
    assert_eq!(unlock(&mut pool, &identity(0)), Err(AMMError::InvalidAuthority));
    assert_eq!(pool, before);
}

#[test]
fn is_authority_compares_every_byte() {
    let pool = even_pool();
    assert!(pool.is_authority(&identity(1)));
    assert!(!pool.is_authority(&identity(2)));
    let mut first_differs = [1u8; 32];
    first_differs[0] = 9;
    assert!(!pool.is_authority(&Identity { bytes: first_differs }));
    assert!(identity(5).same_as(&identity(5)));
    assert!(!identity(5).same_as(&identity(6)));
}

#[test]
fn every_error_has_its_message() {
    assert_eq!(AMMError::PoolLocked.message(), "This pool is locked");
    assert_eq!(AMMError::InvalidAmount.message(), "Invalid Amount");
    assert_eq!(AMMError::SlippageExceeded.message(), "Slippage Exceeded");
    assert_eq!(AMMError::Overflow.message(), "Overflow Detected");
    assert_eq!(AMMError::Underflow.message(), "Underflow Detected");
    assert_eq!(AMMError::InvalidAuthority.message(), "Invalid Authority");
    assert_eq!(AMMError::InvalidPrecision.message(), "Invalid Precision");
    assert_eq!(AMMError::InsufficientBalance.message(), "Insufficient Balance");
    assert_eq!(AMMError::ZeroBalance.message(), "Zero Balance");
    assert_eq!(AMMError::RatioMismatch.message(), "Ratio Mismatch");
}
