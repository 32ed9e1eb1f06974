//! Verified core of a constant-product automated market maker.
//!
//! The crate decides how much a pool mints, burns, pays out or takes in
//! for a deposit, a withdrawal or a swap, and keeps the pool's books. It
//! moves no tokens and stores nothing: callers hand it plain numbers and
//! act on the numbers it hands back.
//!
//! - `fixed_point`: arithmetic that reports overflow instead of wrapping.
//! - `curve`: the price of a swap, and the test a deposit has to pass.
//! - `liquidity`: shares minted by deposits and redeemed by withdrawals.
//! - `state`: the pool and the rules its numbers obey.
//! - `operations`: what can be done to a pool.
//! - `laws`: what is true of every pool, proved.

pub mod curve;
pub mod error;
pub mod fixed_point;
pub mod laws;
pub mod liquidity;
pub mod operations;
pub mod state;

pub use curve::{LiquidityPair, SwapToken};
pub use error::AMMError;
pub use liquidity::WithdrawAsset;
pub use operations::{deposit, initialize, lock, swap, unlock, withdraw, DepositAsset};
pub use state::{Config, Identity, LiquidityPool};
