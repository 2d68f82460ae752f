//! The errors of the lottery.

use vstd::prelude::*;

verus! {

/// Why an operation was refused.
///
/// A request that is refused with `ValidationError`, `InsufficientBalance`,
/// `Unauthorized`, `AccountNotFound`, `RoundClosed` or `CapacityExceeded`
/// leaves the store exactly as it was. `LedgerUnavailable` and
/// `LedgerRejected` report the outcome of an external transfer; the function
/// that returns them says what it released.
#[derive(Clone, Copy, Debug, PartialEq, Eq, Structural)]
pub enum LotteryError {
    /// A malformed identity, amount or reference.
    ValidationError,
    /// The stake or withdrawal exceeds the funds available to the account.
    InsufficientBalance,
    /// The caller is not the operator.
    Unauthorized,
    /// The call to the ledger did not come back with a reply.
    LedgerUnavailable,
    /// The ledger replied with an error of its own.
    LedgerRejected,
    /// No account is held for the identity.
    AccountNotFound,
    /// The current round is past its close time and awaits its draw.
    RoundClosed,
    /// The result would not fit the machine integer that holds it.
    CapacityExceeded,
}

impl LotteryError {
    /// The words that the error is reported with.
    pub open spec fn message_text(self) -> Seq<char> {
        match self {
            LotteryError::ValidationError => "Invalid principal or amount"@,
            LotteryError::InsufficientBalance => "Insufficient balance"@,
            LotteryError::Unauthorized => "Unauthorized"@,
            LotteryError::LedgerUnavailable => "Ledger unavailable"@,
            LotteryError::LedgerRejected => "Ledger rejected the transfer"@,
            LotteryError::AccountNotFound => "User not found"@,
            LotteryError::RoundClosed => "Round is closed"@,
            LotteryError::CapacityExceeded => "Amount out of range"@,
        }
    }

    /// The words that the error is reported with.
    pub fn message(&self) -> (r: &'static str)
        ensures
            r@ == self.message_text(),
    {
        match self {
            LotteryError::ValidationError => "Invalid principal or amount",
            LotteryError::InsufficientBalance => "Insufficient balance",
            LotteryError::Unauthorized => "Unauthorized",
            LotteryError::LedgerUnavailable => "Ledger unavailable",
            LotteryError::LedgerRejected => "Ledger rejected the transfer",
            LotteryError::AccountNotFound => "User not found",
            LotteryError::RoundClosed => "Round is closed",
            LotteryError::CapacityExceeded => "Amount out of range",
        }
    }
}

} // verus!
