//! Withdrawals: paying an account's balance out of the treasury.
//!
//! A withdrawal is two steps around the transfer itself. The request
//! reserves the amount in the account, so that neither a stake nor another
//! withdrawal can spend it while the transfer is under way, and hands out
//! the transfer to make. The settlement takes the ledger's answer: only a
//! transfer that yielded a reference debits the balance, and by the
//! reserved amount exactly.
//!
//! Between the two steps the caller may first sweep the account's custodial
//! funds into the treasury (see [`crate::consolidation`]), so that the
//! treasury holds what it is to pay. The withdrawal does not depend on how
//! that sweep ends.

use crate::account::{
    lemma_log_view_push, ExternalRef, ExternalRefView, Transaction, TransactionKind,
    TransactionView, UserView,
};
use crate::error::LotteryError;
use crate::identity::{clone_bytes, principal_of_text, Account, AccountView, Identity};
use crate::ledger::{TransferArgs, TransferArgsView, TransferOutcome, TRANSFER_FEE};
use crate::state::{
    account_index, has_account, lemma_update_keeps_accounts, LotteryState, StateView,
};
use vstd::prelude::*;
use vstd::utf8::encode_utf8;

verus! {

/// The memo of every withdrawal transfer.
pub const WITHDRAWAL_MEMO: &'static str = "Lottery withdrawal";

/// Why a withdrawal request is refused, if it is: the identity has no
/// account, or the amount exceeds what the account has available.
pub open spec fn withdrawal_refusal(s: StateView, id: Seq<u8>, amount: u64) -> Option<
    LotteryError,
> {
    if !has_account(s.users, id) {
        Some(LotteryError::AccountNotFound)
    } else if s.users[account_index(s.users, id)].available() < amount {
        Some(LotteryError::InsufficientBalance)
    } else {
        None
    }
}

/// The transfer that pays `amount` out of the treasury to the main account
/// of the identity. It is paid from the treasury's sub-address, and from the
/// lottery's own main account as long as the operator has set no treasury.
pub open spec fn withdrawal_request(
    s: StateView,
    id: Seq<u8>,
    amount: u64,
    now: u64,
) -> TransferArgsView {
    TransferArgsView {
        to: AccountView { owner: id, subaccount: None },
        amount,
        fee: Some(TRANSFER_FEE),
        memo: Some(encode_utf8(WITHDRAWAL_MEMO@)),
        from_subaccount: match s.treasury {
            Some(treasury) => treasury.subaccount,
            None => None,
        },
        created_at_time: Some(now),
    }
}

/// The store after a withdrawal was requested: where the request is not
/// refused the amount is reserved in the account, and otherwise nothing
/// changed.
pub open spec fn after_withdrawal_request(s: StateView, id: Seq<u8>, amount: u64) -> StateView {
    if withdrawal_refusal(s, id, amount) is None {
        let i = account_index(s.users, id);
        let user = s.users[i];
        s.with_user(
            i,
            UserView { pending_withdrawals: (user.pending_withdrawals + amount) as u64, ..user },
        )
    } else {
        s
    }
}

/// Requests the withdrawal of `amount` from the account of `identity`.
///
/// The amount has to be available: covered by the balance without what
/// earlier withdrawals, still under way, have reserved. Where none is under
/// way that is the whole balance.
///
/// The balance itself is left as it is: it is debited only when the
/// transfer has gone through (see [`settle_withdrawal`]).
pub fn request_withdrawal(
    state: &mut LotteryState,
    identity: &Identity,
    amount: u64,
    now: u64,
) -> (r: Result<TransferArgs, LotteryError>)
    requires
        old(state).wf(),
    ensures
        final(state).wf(),
        final(state)@ == after_withdrawal_request(old(state)@, identity@, amount),
        match r {
            Ok(request) => {
                &&& withdrawal_refusal(old(state)@, identity@, amount) is None
                &&& request@ == withdrawal_request(old(state)@, identity@, amount, now)
            },
            Err(e) => withdrawal_refusal(old(state)@, identity@, amount) == Some(e),
        },
        final(state)@.users.len() == old(state)@.users.len(),
        forall|j: int|
            0 <= j < old(state)@.users.len() ==> (#[trigger] final(state)@.users[j]).balance
                == old(state)@.users[j].balance,
{
    let i = match state.find_user(identity) {
        Some(i) => i,
        None => {
            return Err(LotteryError::AccountNotFound);
        },
    };
    if state.users[i].balance - state.users[i].pending_withdrawals < amount {
        return Err(LotteryError::InsufficientBalance);
    }
    let ghost before = state@;
    let ghost after = after_withdrawal_request(before, identity@, amount);
    let request = TransferArgs {
        to: Account::main_of(identity),
        amount,
        fee: Some(TRANSFER_FEE),
        memo: Some(WITHDRAWAL_MEMO.as_bytes_vec()),
        from_subaccount: match &state.treasury {
            Some(treasury) => clone_bytes(&treasury.subaccount),
            None => None,
        },
        created_at_time: Some(now),
    };
    state.users[i].pending_withdrawals = state.users[i].pending_withdrawals + amount;
    proof {
        assert(state@.users =~= after.users);
        assert(state@ =~= after);
        lemma_update_keeps_accounts(before.users, i as int, after.users[i as int]);
    }
    Ok(request)
}

/// Requests a withdrawal for the identity that `principal` spells.
///
/// A text that is no principal is refused with `ValidationError`. Otherwise
/// this is [`request_withdrawal`] for the identity that the text stands for.
pub fn withdraw_balance(
    state: &mut LotteryState,
    principal: &str,
    amount: u64,
    now: u64,
) -> (r: Result<TransferArgs, LotteryError>)
    requires
        old(state).wf(),
    ensures
        final(state).wf(),
        match principal_of_text(principal@) {
            Some(id) => {
                &&& final(state)@ == after_withdrawal_request(old(state)@, id, amount)
                &&& match r {
                    Ok(request) => {
                        &&& withdrawal_refusal(old(state)@, id, amount) is None
                        &&& request@ == withdrawal_request(old(state)@, id, amount, now)
                    },
                    Err(e) => withdrawal_refusal(old(state)@, id, amount) == Some(e),
                }
            },
            None => {
                &&& final(state)@ == old(state)@
                &&& r == Err::<TransferArgs, LotteryError>(LotteryError::ValidationError)
            },
        },
{
    let identity = match Identity::from_text(principal) {
        Ok(identity) => identity,
        Err(e) => {
            return Err(e);
        },
    };
    request_withdrawal(state, &identity, amount, now)
}

/// Why the answer to a withdrawal transfer is refused, if it is: the
/// identity has no account, or the account has less than `amount` reserved.
pub open spec fn settlement_refusal(s: StateView, id: Seq<u8>, amount: u64) -> Option<
    LotteryError,
> {
    if !has_account(s.users, id) {
        Some(LotteryError::AccountNotFound)
    } else if s.users[account_index(s.users, id)].pending_withdrawals < amount {
        Some(LotteryError::ValidationError)
    } else {
        None
    }
}

/// The record of a withdrawal that the ledger carried out in block `block`.
pub open spec fn withdrawal_record(
    id: Seq<u8>,
    amount: u64,
    block: u64,
    now: u64,
) -> TransactionView {
    TransactionView {
        amount,
        timestamp: now,
        transaction_type: TransactionKind::Withdraw,
        tx_hash: Some(ExternalRefView::Block(block)),
        ckbtc_address: Some(AccountView { owner: id, subaccount: None }),
    }
}

/// The store after a withdrawal transfer has ended: the reservation is
/// released, and where the transfer yielded a reference, the balance is
/// debited by the amount and the withdrawal is recorded.
pub open spec fn withdrawal_settled(
    s: StateView,
    id: Seq<u8>,
    amount: u64,
    reference: Option<u64>,
    now: u64,
) -> StateView {
    let i = account_index(s.users, id);
    let user = s.users[i];
    let released = UserView {
        pending_withdrawals: (user.pending_withdrawals - amount) as u64,
        ..user
    };
    s.with_user(
        i,
        match reference {
            Some(block) => UserView {
                balance: (user.balance - amount) as u64,
                transaction_history: user.transaction_history.push(
                    withdrawal_record(id, amount, block, now),
                ),
                ..released
            },
            None => released,
        },
    )
}

/// The store after the answer to a withdrawal transfer was handed in:
/// settled where the answer is not refused, and otherwise as it was.
pub open spec fn after_settlement(
    s: StateView,
    id: Seq<u8>,
    amount: u64,
    reference: Option<u64>,
    now: u64,
) -> StateView {
    if settlement_refusal(s, id, amount) is None {
        withdrawal_settled(s, id, amount, reference, now)
    } else {
        s
    }
}

/// What handing in the answer to a withdrawal transfer answers: the refusal
/// where there is one; the reference where the transfer yielded one; and
/// otherwise the error that the transfer ended with.
pub open spec fn settlement_answer(
    s: StateView,
    id: Seq<u8>,
    amount: u64,
    outcome: TransferOutcome,
) -> Result<u64, LotteryError> {
    match settlement_refusal(s, id, amount) {
        Some(e) => Err(e),
        None => match outcome.reference() {
            Some(block) => Ok(block),
            None => Err(outcome.failure()),
        },
    }
}

/// The amount that a transfer of `amount` moved: all of it where the
/// transfer yielded a reference, and nothing otherwise.
pub open spec fn transferred(amount: u64, reference: Option<u64>) -> u64 {
    if reference is Some {
        amount
    } else {
        0
    }
}

/// Settles a requested withdrawal with the ledger's answer.
///
/// Where the transfer yielded a reference, the balance is debited by
/// `amount`, a `Withdraw` record with the reference is appended, and the
/// reference is returned. Where it did not, the balance is left untouched
/// and the error says whether the ledger was unavailable or rejected the
/// transfer. Either way the reservation of `amount` is released.
pub fn settle_withdrawal(
    state: &mut LotteryState,
    identity: &Identity,
    amount: u64,
    outcome: &TransferOutcome,
    now: u64,
) -> (r: Result<u64, LotteryError>)
    requires
        old(state).wf(),
    ensures
        final(state).wf(),
        final(state)@ == after_settlement(old(state)@, identity@, amount, outcome.reference(), now),
        r == settlement_answer(old(state)@, identity@, amount, *outcome),
        final(state)@.users.len() == old(state)@.users.len(),
        forall|j: int|
            0 <= j < old(state)@.users.len() ==> {
                &&& (#[trigger] final(state)@.users[j]).balance <= old(state)@.users[j].balance
                &&& old(state)@.users[j].balance - final(state)@.users[j].balance <= transferred(
                    amount,
                    outcome.reference(),
                )
            },
{
    let i = match state.find_user(identity) {
        Some(i) => i,
        None => {
            return Err(LotteryError::AccountNotFound);
        },
    };
    if state.users[i].pending_withdrawals < amount {
        return Err(LotteryError::ValidationError);
    }
    let ghost before = state@;
    let ghost after = withdrawal_settled(before, identity@, amount, outcome.reference(), now);
    state.users[i].pending_withdrawals = state.users[i].pending_withdrawals - amount;
    let r = match outcome.settle() {
        Ok(block) => {
            let record = Transaction {
                amount,
                timestamp: now,
                transaction_type: TransactionKind::Withdraw,
                tx_hash: Some(ExternalRef::Block(block)),
                ckbtc_address: Some(Account::main_of(identity)),
            };
            proof {
                assert(record@ == withdrawal_record(identity@, amount, block, now));
                lemma_log_view_push(state.users[i as int].transaction_history@, record);
            }
            state.users[i].balance = state.users[i].balance - amount;
            state.users[i].transaction_history.push(record);
            Ok(block)
        },
        Err(e) => Err(e),
    };
    proof {
        assert(state@.users =~= after.users);
        assert(state@ =~= after);
        lemma_update_keeps_accounts(before.users, i as int, after.users[i as int]);
    }
    r
}

} // verus!
