//! The pool: its settings, its balances and the rules that tie them
//! together.
//!
//! `PoolState` is the pool as mathematics sees it, with unbounded numbers;
//! the contracts of every operation are written over it. `LiquidityPool` is
//! the pool that callers hold. Its fields are private, so a pool is only
//! ever made by a function of this crate that has checked the rules, and
//! every pool in a running program obeys them.

use crate::error::AMMError;
use crate::fixed_point::{precision_scale, MAX_PRECISION};
use vstd::prelude::*;

verus! {

/// The highest fee rate, in basis points: one hundred percent.
pub const MAX_FEE: u16 = 10_000;

/// Who someone is: 32 bytes, compared byte for byte. The pool never asks
/// how the caller's identity was established.
#[derive(Clone, Copy, Debug, PartialEq, Eq)]
pub struct Identity {
    pub bytes: [u8; 32],
}

impl View for Identity {
    type V = Seq<u8>;

    open spec fn view(&self) -> Seq<u8> {
        self.bytes@
    }
}

impl Identity {
    /// Whether two identities hold the same bytes.
    pub fn same_as(&self, other: &Identity) -> (same: bool)
        ensures
            same == (self@ == other@),
    {
        let mut i: usize = 0;
        while i < 32
            invariant
                i <= 32,
                forall|j: int| 0 <= j < i ==> self.bytes@[j] == other.bytes@[j],
            decreases 32 - i,
        {
            if self.bytes[i] != other.bytes[i] {
                return false;
            }
            i = i + 1;
        }
        assert(self@ =~= other@);
        true
    }
}

/// The settings of a pool, as they are stored next to its balances.
#[derive(Clone, Copy, Debug, PartialEq, Eq)]
pub struct Config {
    /// Tells this pool from others over the same two assets.
    pub seed: u64,
    /// The one identity that may lock and unlock the pool, if there is one.
    pub authority: Option<Identity>,
    /// The fee rate in basis points.
    pub fee: u16,
    /// While set, deposits, withdrawals and swaps are refused.
    pub locked: bool,
    /// The number of decimal digits of the pool's fixed-point scale.
    pub precision: u8,
}

/// The bytes of an identity that may be absent.
pub open spec fn authority_bytes(authority: Option<Identity>) -> Option<Seq<u8>> {
    match authority {
        Some(identity) => Some(identity@),
        None => None,
    }
}

/// The state of a pool as plain numbers.
pub struct PoolState {
    pub seed: u64,
    pub authority: Option<Seq<u8>>,
    pub fee_bps: nat,
    pub locked: bool,
    pub precision: nat,
    pub reserve_x: nat,
    pub reserve_y: nat,
    pub share_supply: nat,
}

impl PoolState {
    /// The rules every pool obeys: the fee rate is at most one hundred
    /// percent, the scale fits in 64 bits, and the two reserves and the
    /// share supply are either all positive or all zero.
    pub open spec fn inv(self) -> bool {
        &&& self.fee_bps <= MAX_FEE
        &&& self.precision <= MAX_PRECISION
        &&& balances_coherent(
            self.reserve_x as int,
            self.reserve_y as int,
            self.share_supply as int,
        )
    }

    /// Whether nothing is left in the pool.
    pub open spec fn is_empty(self) -> bool {
        self.share_supply == 0
    }

    /// The product of the two reserves, which swaps hold on to.
    pub open spec fn product(self) -> nat {
        self.reserve_x * self.reserve_y
    }

    /// This state with other balances.
    pub open spec fn with_balances(self, reserve_x: nat, reserve_y: nat, share_supply: nat) -> Self {
        PoolState { reserve_x, reserve_y, share_supply, ..self }
    }

    /// This state with the lock set or cleared.
    pub open spec fn with_locked(self, locked: bool) -> Self {
        PoolState { locked, ..self }
    }
}

/// Two reserves and a share supply belong together if all three are
/// positive or all three are zero: shares exist exactly while there is
/// something in the pool for them to stand for.
pub open spec fn balances_coherent(reserve_x: int, reserve_y: int, share_supply: int) -> bool {
    ||| reserve_x > 0 && reserve_y > 0 && share_supply > 0
    ||| reserve_x == 0 && reserve_y == 0 && share_supply == 0
}

/// The state that settings and balances describe together.
pub open spec fn state_of(config: Config, reserve_x: u64, reserve_y: u64, share_supply: u64) -> PoolState {
    PoolState {
        seed: config.seed,
        authority: authority_bytes(config.authority),
        fee_bps: config.fee as nat,
        locked: config.locked,
        precision: config.precision as nat,
        reserve_x: reserve_x as nat,
        reserve_y: reserve_y as nat,
        share_supply: share_supply as nat,
    }
}

/// A pool of two assets and the shares issued against them.
#[derive(Clone, Copy, Debug, PartialEq, Eq)]
pub struct LiquidityPool {
    config: Config,
    reserve_x: u64,
    reserve_y: u64,
    share_supply: u64,
}

impl View for LiquidityPool {
    type V = PoolState;

    closed spec fn view(&self) -> PoolState {
        state_of(self.config, self.reserve_x, self.reserve_y, self.share_supply)
    }
}

impl LiquidityPool {
    /// Every pool obeys the rules of `PoolState::inv`.
    #[verifier::type_invariant]
    pub open spec fn well_formed(self) -> bool {
        self@.inv()
    }

    /// Makes a pool from stored settings and balances, if they obey the
    /// rules. A fee rate or precision out of range is refused with
    /// `InvalidPrecision`; balances of which some but not all are zero are
    /// refused with `ZeroBalance`.
    pub fn new(config: Config, reserve_x: u64, reserve_y: u64, share_supply: u64) -> (r: Result<
        LiquidityPool,
        AMMError,
    >)
        ensures
            match r {
                Ok(pool) => pool@ == state_of(config, reserve_x, reserve_y, share_supply)
                    && pool@.inv(),
                Err(e) => if config.fee > MAX_FEE || config.precision > MAX_PRECISION {
                    e == AMMError::InvalidPrecision
                } else {
                    e == AMMError::ZeroBalance && !balances_coherent(
                        reserve_x as int,
                        reserve_y as int,
                        share_supply as int,
                    )
                },
            },
    {
        if config.fee > MAX_FEE {
            return Err(AMMError::InvalidPrecision);
        }
        let _ = precision_scale(config.precision)?;
        let all_positive = reserve_x > 0 && reserve_y > 0 && share_supply > 0;
        let all_zero = reserve_x == 0 && reserve_y == 0 && share_supply == 0;
        if !(all_positive || all_zero) {
            return Err(AMMError::ZeroBalance);
        }
        Ok(LiquidityPool { config, reserve_x, reserve_y, share_supply })
    }

    /// Replaces the balances, all three at once.
    pub(crate) fn set_balances(&mut self, reserve_x: u64, reserve_y: u64, share_supply: u64)
        requires
            balances_coherent(reserve_x as int, reserve_y as int, share_supply as int),
        ensures
            final(self)@ == old(self)@.with_balances(
                reserve_x as nat,
                reserve_y as nat,
                share_supply as nat,
            ),
    {
        proof {
            use_type_invariant(&*self);
        }
        *self = LiquidityPool { config: self.config, reserve_x, reserve_y, share_supply };
    }

    /// Sets or clears the lock.
    pub(crate) fn set_locked(&mut self, locked: bool)
        ensures
            final(self)@ == old(self)@.with_locked(locked),
    {
        proof {
            use_type_invariant(&*self);
        }
        let config = Config { locked, ..self.config };
        *self = LiquidityPool {
            config,
            reserve_x: self.reserve_x,
            reserve_y: self.reserve_y,
            share_supply: self.share_supply,
        };
    }

    /// The settings, as they would be stored.
    pub fn config(&self) -> (config: Config)
        ensures
            config.seed == self@.seed,
            authority_bytes(config.authority) == self@.authority,
            config.fee == self@.fee_bps,
            config.locked == self@.locked,
            config.precision == self@.precision,
    {
        self.config
    }

    /// The amount of asset X in the pool.
    pub fn reserve_x(&self) -> (amount: u64)
        ensures
            amount == self@.reserve_x,
    {
        self.reserve_x
    }

    /// The amount of asset Y in the pool.
    pub fn reserve_y(&self) -> (amount: u64)
        ensures
            amount == self@.reserve_y,
    {
        self.reserve_y
    }

    /// The number of shares outstanding.
    pub fn share_supply(&self) -> (shares: u64)
        ensures
            shares == self@.share_supply,
    {
        self.share_supply
    }

    /// The fee rate in basis points.
    pub fn fee(&self) -> (fee: u16)
        ensures
            fee == self@.fee_bps,
    {
        self.config.fee
    }

    /// Whether the pool is locked.
    pub fn locked(&self) -> (locked: bool)
        ensures
            locked == self@.locked,
    {
        self.config.locked
    }

    /// Whether `caller` is the pool's authority. A pool without authority
    /// has none, whoever calls.
    pub fn is_authority(&self, caller: &Identity) -> (yes: bool)
        ensures
            yes == (self@.authority == Some(caller@)),
    {
        match &self.config.authority {
            Some(authority) => authority.same_as(caller),
            None => false,
        }
    }
}

} // verus!
