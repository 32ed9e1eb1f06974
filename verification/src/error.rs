//! The failures a pool operation can report.

use vstd::prelude::*;

verus! {

/// Why an operation was refused. Every refusal leaves the pool untouched.
#[derive(Clone, Copy, Debug, PartialEq, Eq, Structural)]
pub enum AMMError {
    /// A deposit, withdrawal or swap was attempted on a locked pool.
    PoolLocked,
    /// A caller's amount is zero or buys nothing.
    InvalidAmount,
    /// The computed amounts break the limits the caller set.
    SlippageExceeded,
    /// A result does not fit in 64 bits.
    Overflow,
    /// A subtraction would go below zero.
    Underflow,
    /// The caller may not lock or unlock the pool.
    InvalidAuthority,
    /// The fee rate or the precision is outside the supported range.
    InvalidPrecision,
    /// More shares were offered for burning than exist, or none.
    InsufficientBalance,
    /// A reserve or the share supply involved is zero, or would become zero.
    ZeroBalance,
    /// A deposit would change the ratio between the two reserves.
    RatioMismatch,
}

impl AMMError {
    /// The text of the message, as a sequence of characters.
    pub open spec fn message_text(self) -> Seq<char> {
        match self {
            AMMError::PoolLocked => "This pool is locked"@,
            AMMError::InvalidAmount => "Invalid Amount"@,
            AMMError::SlippageExceeded => "Slippage Exceeded"@,
            AMMError::Overflow => "Overflow Detected"@,
            AMMError::Underflow => "Underflow Detected"@,
            AMMError::InvalidAuthority => "Invalid Authority"@,
            AMMError::InvalidPrecision => "Invalid Precision"@,
            AMMError::InsufficientBalance => "Insufficient Balance"@,
            AMMError::ZeroBalance => "Zero Balance"@,
            AMMError::RatioMismatch => "Ratio Mismatch"@,
        }
    }

    /// A short message for people to read.
    pub fn message(&self) -> (text: &'static str)
        ensures
            text@ == self.message_text(),
    {
        match self {
            AMMError::PoolLocked => "This pool is locked",
            AMMError::InvalidAmount => "Invalid Amount",
            AMMError::SlippageExceeded => "Slippage Exceeded",
            AMMError::Overflow => "Overflow Detected",
            AMMError::Underflow => "Underflow Detected",
            AMMError::InvalidAuthority => "Invalid Authority",
            AMMError::InvalidPrecision => "Invalid Precision",
            AMMError::InsufficientBalance => "Insufficient Balance",
            AMMError::ZeroBalance => "Zero Balance",
            AMMError::RatioMismatch => "Ratio Mismatch",
        }
    }
}

} // verus!
