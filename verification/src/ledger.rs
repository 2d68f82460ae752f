//! The ledger's interface as the lottery sees it: what a transfer request
//! holds, and how a transfer can end.

use crate::error::LotteryError;
use crate::identity::{bytes_view, clone_bytes, Account, AccountView};
use vstd::prelude::*;

verus! {

/// The fee offered with every transfer, in the ledger's smallest unit.
pub const TRANSFER_FEE: u64 = 1_000;

/// A transfer request, as the ledger takes it.
#[derive(Debug, PartialEq, Eq)]
pub struct TransferArgs {
    pub to: Account,
    pub amount: u64,
    pub fee: Option<u64>,
    pub memo: Option<Vec<u8>>,
    pub from_subaccount: Option<Vec<u8>>,
    pub created_at_time: Option<u64>,
}

/// What a [`TransferArgs`] holds.
#[verifier::ext_equal]
pub struct TransferArgsView {
    pub to: AccountView,
    pub amount: u64,
    pub fee: Option<u64>,
    pub memo: Option<Seq<u8>>,
    pub from_subaccount: Option<Seq<u8>>,
    pub created_at_time: Option<u64>,
}

impl View for TransferArgs {
    type V = TransferArgsView;

    open spec fn view(&self) -> TransferArgsView {
        TransferArgsView {
            to: self.to@,
            amount: self.amount,
            fee: self.fee,
            memo: bytes_view(self.memo),
            from_subaccount: bytes_view(self.from_subaccount),
            created_at_time: self.created_at_time,
        }
    }
}

impl Clone for TransferArgs {
    fn clone(&self) -> (r: Self)
        ensures
            r@ == self@,
    {
        TransferArgs {
            to: self.to.clone(),
            amount: self.amount,
            fee: self.fee,
            memo: clone_bytes(&self.memo),
            from_subaccount: clone_bytes(&self.from_subaccount),
            created_at_time: self.created_at_time,
        }
    }
}

/// The errors with which the ledger answers a transfer.
#[derive(Debug, PartialEq, Eq)]
pub enum TransferError {
    BadFee { expected_fee: u64 },
    BadBurn { min_burn_amount: u64 },
    InsufficientFunds { balance: u64 },
    TooOld,
    CreatedInFuture { ledger_time: u64 },
    Duplicate { duplicate_of: u64 },
    TemporarilyUnavailable,
    GenericError { error_code: u64, message: String },
}

/// The ledger's answer to a transfer: the index of the block that holds it,
/// or an error.
#[derive(Debug, PartialEq, Eq)]
pub enum TransferResult {
    Completed(u64),
    Failed(TransferError),
}

/// How a transfer ended, as seen from here: the call never came back with a
/// reply, or the ledger replied.
#[derive(Debug, PartialEq, Eq)]
pub enum TransferOutcome {
    Unavailable,
    Replied(TransferResult),
}

impl Clone for TransferError {
    fn clone(&self) -> (r: Self)
        ensures
            r.same_kind(*self),
    {
        match self {
            TransferError::BadFee { expected_fee } => TransferError::BadFee {
                expected_fee: *expected_fee,
            },
            TransferError::BadBurn { min_burn_amount } => TransferError::BadBurn {
                min_burn_amount: *min_burn_amount,
            },
            TransferError::InsufficientFunds { balance } => TransferError::InsufficientFunds {
                balance: *balance,
            },
            TransferError::TooOld => TransferError::TooOld,
            TransferError::CreatedInFuture { ledger_time } => TransferError::CreatedInFuture {
                ledger_time: *ledger_time,
            },
            TransferError::Duplicate { duplicate_of } => TransferError::Duplicate {
                duplicate_of: *duplicate_of,
            },
            TransferError::TemporarilyUnavailable => TransferError::TemporarilyUnavailable,
            TransferError::GenericError { error_code, message } => TransferError::GenericError {
                error_code: *error_code,
                message: message.clone(),
            },
        }
    }
}

impl TransferError {
    /// Whether two errors are the same but for the text of a generic one,
    /// of which only the characters are compared.
    pub open spec fn same_kind(self, other: TransferError) -> bool {
        match (self, other) {
            (
                TransferError::GenericError { error_code: c1, message: m1 },
                TransferError::GenericError { error_code: c2, message: m2 },
            ) => c1 == c2 && m1@ == m2@,
            _ => self == other,
        }
    }
}

impl Clone for TransferResult {
    fn clone(&self) -> (r: Self)
        ensures
            r is Completed <==> self is Completed,
            r is Completed ==> r->Completed_0 == self->Completed_0,
    {
        match self {
            TransferResult::Completed(block) => TransferResult::Completed(*block),
            TransferResult::Failed(e) => TransferResult::Failed(e.clone()),
        }
    }
}

impl Clone for TransferOutcome {
    fn clone(&self) -> (r: Self)
        ensures
            r.reference() == self.reference(),
            r.failure() == self.failure(),
    {
        match self {
            TransferOutcome::Unavailable => TransferOutcome::Unavailable,
            TransferOutcome::Replied(reply) => TransferOutcome::Replied(reply.clone()),
        }
    }
}

impl TransferOutcome {
    /// The external reference of a transfer that went through.
    pub open spec fn reference(&self) -> Option<u64> {
        match self {
            TransferOutcome::Replied(TransferResult::Completed(block)) => Some(*block),
            _ => None,
        }
    }

    /// The error that a transfer without a reference is reported with.
    pub open spec fn failure(&self) -> LotteryError {
        match self {
            TransferOutcome::Unavailable => LotteryError::LedgerUnavailable,
            _ => LotteryError::LedgerRejected,
        }
    }

    /// Reads the outcome: the block index of a transfer that went through,
    /// `LedgerUnavailable` where no reply came, `LedgerRejected` where the
    /// ledger answered with an error.
    pub fn settle(&self) -> (r: Result<u64, LotteryError>)
        ensures
            match self.reference() {
                Some(block) => r == Ok::<u64, LotteryError>(block),
                None => r == Err::<u64, LotteryError>(self.failure()),
            },
    {
        match self {
            TransferOutcome::Unavailable => Err(LotteryError::LedgerUnavailable),
            TransferOutcome::Replied(TransferResult::Completed(block)) => Ok(*block),
            TransferOutcome::Replied(TransferResult::Failed(_)) => Err(
                LotteryError::LedgerRejected,
            ),
        }
    }
}

} // verus!
