//! The protocol's domain errors, and the outcome of a refused operation.
use vstd::prelude::*;

verus! {

/// A broken business rule. Each has a fixed numeric code.
#[derive(Debug, Clone, Copy, PartialEq, Eq)]
pub enum LuckycoinError {
    /// The epoch has ended and the configuration needs a reset.
    NeedsReset,
    /// The submitted solution is not valid for the current challenge.
    HashInvalid,
    /// The solution's difficulty is below the accepted minimum.
    HashTooEasy,
    /// The claimed amount exceeds the record's balance.
    ClaimTooLarge,
    /// The clock time is invalid.
    ClockInvalid,
    /// The submission came too soon after the previous one.
    Spam,
    /// Minting would exceed the maximum supply.
    MaxSupply,
    /// The transaction does not declare the record being mined.
    AuthFailed,
}

impl LuckycoinError {
    pub open spec fn spec_code(self) -> u32 {
        match self {
            LuckycoinError::NeedsReset => 0,
            LuckycoinError::HashInvalid => 1,
            LuckycoinError::HashTooEasy => 2,
            LuckycoinError::ClaimTooLarge => 3,
            LuckycoinError::ClockInvalid => 4,
            LuckycoinError::Spam => 5,
            LuckycoinError::MaxSupply => 6,
            LuckycoinError::AuthFailed => 7,
        }
    }

    /// The numeric code under which the error is reported to the ledger.
    pub fn code(&self) -> (r: u32)
        ensures
            r == self.spec_code(),
    {
        match self {
            LuckycoinError::NeedsReset => 0,
            LuckycoinError::HashInvalid => 1,
            LuckycoinError::HashTooEasy => 2,
            LuckycoinError::ClaimTooLarge => 3,
            LuckycoinError::ClockInvalid => 4,
            LuckycoinError::Spam => 5,
            LuckycoinError::MaxSupply => 6,
            LuckycoinError::AuthFailed => 7,
        }
    }
}

/// Why an operation was refused. Nothing is changed when one is.
#[derive(Debug, Clone, Copy, PartialEq, Eq)]
pub enum ProcessError {
    /// A business rule was broken.
    Domain(LuckycoinError),
    /// A record or an account failed boundary validation.
    InvalidAccountData,
    /// Checked arithmetic overflowed: a broken invariant, not bad input.
    Overflow,
}

} // verus!
