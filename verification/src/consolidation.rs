//! The consolidation engine: sweeping the funds at an identity's custodial
//! addresses into the treasury.
//!
//! A consolidation is two steps around the transfers themselves. The first
//! step takes the balances that the ledger reported for the two custodial
//! addresses, marks the transfers as under way and hands out the requests.
//! The second step takes the ledger's answer to one transfer and records what
//! was moved. Neither step changes a balance of the lottery: what an account
//! may stake or withdraw, and what has reached the treasury, are two facts.

use crate::account::{
    lemma_log_view_push, ExternalRef, ExternalRefView, PendingSweep, Transaction, TransactionKind,
    TransactionView, UserView,
};
use crate::error::LotteryError;
use crate::identity::{clone_bytes, Account, AccountView, Identity};
use crate::ledger::{TransferArgs, TransferArgsView, TransferOutcome, TRANSFER_FEE};
use crate::state::{
    account_index, has_account, lemma_update_keeps_accounts, LotteryState, StateView,
};
use vstd::prelude::*;
use vstd::utf8::encode_utf8;

verus! {

/// The custodial address that a consolidation transfer takes funds from.
#[derive(Clone, Copy, Debug, PartialEq, Eq, Structural)]
pub enum SweepLeg {
    /// The identity's main account, without a sub-address.
    Main,
    /// The identity's deposit account.
    Deposit,
}

/// What the memo of a transfer out of a main account starts with.
pub const MAIN_SWEEP_MEMO: &'static str = "Auto consolidation from main account of user ";

/// What the memo of a transfer out of a deposit account starts with.
pub const DEPOSIT_SWEEP_MEMO: &'static str = "Auto consolidation from deposit account of user ";

impl SweepLeg {
    /// What the memo of a transfer of this leg starts with.
    pub open spec fn memo_prefix(self) -> Seq<char> {
        match self {
            SweepLeg::Main => MAIN_SWEEP_MEMO@,
            SweepLeg::Deposit => DEPOSIT_SWEEP_MEMO@,
        }
    }

    /// The address that the leg takes funds from.
    pub open spec fn source(self, user: UserView) -> AccountView {
        match self {
            SweepLeg::Main => AccountView { owner: user.identity, subaccount: None },
            SweepLeg::Deposit => user.deposit_account,
        }
    }

    /// The amount of the leg's transfer that is under way; 0 where none is.
    pub open spec fn pending(self, sweep: PendingSweep) -> u64 {
        match self {
            SweepLeg::Main => sweep.main,
            SweepLeg::Deposit => sweep.deposit,
        }
    }

    /// The marker after the leg's transfer has ended.
    pub open spec fn cleared(self, sweep: PendingSweep) -> PendingSweep {
        match self {
            SweepLeg::Main => PendingSweep { main: 0, ..sweep },
            SweepLeg::Deposit => PendingSweep { deposit: 0, ..sweep },
        }
    }
}

/// One transfer of a consolidation: the leg it belongs to, and the request
/// to hand to the ledger.
#[derive(Debug, PartialEq, Eq)]
pub struct SweepRequest {
    pub leg: SweepLeg,
    pub transfer: TransferArgs,
}

/// What a [`SweepRequest`] holds.
#[verifier::ext_equal]
pub struct SweepRequestView {
    pub leg: SweepLeg,
    pub transfer: TransferArgsView,
}

impl View for SweepRequest {
    type V = SweepRequestView;

    open spec fn view(&self) -> SweepRequestView {
        SweepRequestView { leg: self.leg, transfer: self.transfer@ }
    }
}

impl Clone for SweepRequest {
    fn clone(&self) -> (r: Self)
        ensures
            r@ == self@,
    {
        SweepRequest { leg: self.leg, transfer: self.transfer.clone() }
    }
}

/// The request that moves `amount` from one custodial address of `user` into
/// the treasury: the stated fee, a memo that names the leg and the account,
/// and `now` as the time the request was made.
pub open spec fn sweep_request(
    treasury: AccountView,
    user: UserView,
    leg: SweepLeg,
    amount: u64,
    now: u64,
) -> SweepRequestView {
    SweepRequestView {
        leg,
        transfer: TransferArgsView {
            to: treasury,
            amount,
            fee: Some(TRANSFER_FEE),
            memo: Some(encode_utf8(leg.memo_prefix()) + encode_utf8(user.principal_text)),
            from_subaccount: leg.source(user).subaccount,
            created_at_time: Some(now),
        },
    }
}

/// The requests of one consolidation: one for each custodial address that
/// holds anything, the main account first.
pub open spec fn sweep_requests(
    treasury: AccountView,
    user: UserView,
    main_balance: u64,
    deposit_balance: u64,
    now: u64,
) -> Seq<SweepRequestView> {
    let main = if main_balance > 0 {
        seq![sweep_request(treasury, user, SweepLeg::Main, main_balance, now)]
    } else {
        Seq::empty()
    };
    let deposit = if deposit_balance > 0 {
        seq![sweep_request(treasury, user, SweepLeg::Deposit, deposit_balance, now)]
    } else {
        Seq::empty()
    };
    main + deposit
}

/// Why a consolidation is refused, if it is: the identity has no account.
pub open spec fn consolidation_refusal(s: StateView, id: Seq<u8>) -> Option<LotteryError> {
    if !has_account(s.users, id) {
        Some(LotteryError::AccountNotFound)
    } else {
        None
    }
}

/// Whether a consolidation that is not refused starts transfers: the
/// operator has set a treasury, none is under way for the account, and a
/// custodial address holds something.
pub open spec fn consolidation_starts(
    s: StateView,
    id: Seq<u8>,
    main_balance: u64,
    deposit_balance: u64,
) -> bool {
    s.treasury is Some && !s.users[account_index(s.users, id)].pending_sweep.in_flight() && (
    main_balance > 0 || deposit_balance > 0)
}

/// The store after a consolidation that starts transfers: the account is
/// marked with the two amounts.
pub open spec fn consolidation_started(
    s: StateView,
    id: Seq<u8>,
    main_balance: u64,
    deposit_balance: u64,
) -> StateView {
    let i = account_index(s.users, id);
    s.with_user(
        i,
        UserView {
            pending_sweep: PendingSweep { main: main_balance, deposit: deposit_balance },
            ..s.users[i]
        },
    )
}

/// The store after the consolidation of an account was planned: marked
/// where the plan is not refused and starts transfers, and otherwise as it
/// was.
pub open spec fn after_consolidation(
    s: StateView,
    id: Seq<u8>,
    main_balance: u64,
    deposit_balance: u64,
) -> StateView {
    if consolidation_refusal(s, id) is None && consolidation_starts(
        s,
        id,
        main_balance,
        deposit_balance,
    ) {
        consolidation_started(s, id, main_balance, deposit_balance)
    } else {
        s
    }
}

/// The requests that a plan hands out: those of the consolidation where it
/// starts transfers, and otherwise none.
pub open spec fn planned_requests(
    s: StateView,
    id: Seq<u8>,
    main_balance: u64,
    deposit_balance: u64,
    now: u64,
) -> Seq<SweepRequestView> {
    if consolidation_starts(s, id, main_balance, deposit_balance) {
        sweep_requests(
            s.treasury->Some_0,
            s.users[account_index(s.users, id)],
            main_balance,
            deposit_balance,
            now,
        )
    } else {
        Seq::empty()
    }
}

/// The views of a list of requests, in order.
pub open spec fn request_views(requests: Seq<SweepRequest>) -> Seq<SweepRequestView> {
    requests.map_values(|r: SweepRequest| r@)
}

/// The memo of a consolidation transfer.
fn sweep_memo(leg: SweepLeg, principal_text: &String) -> (r: Vec<u8>)
    ensures
        r@ == encode_utf8(leg.memo_prefix()) + encode_utf8(principal_text@),
{
    let mut memo = match leg {
        SweepLeg::Main => MAIN_SWEEP_MEMO.as_bytes_vec(),
        SweepLeg::Deposit => DEPOSIT_SWEEP_MEMO.as_bytes_vec(),
    };
    let mut tail = principal_text.as_str().as_bytes_vec();
    memo.append(&mut tail);
    memo
}

/// Plans the consolidation of an identity's custodial funds, given the
/// balances of its main account and of its deposit account.
///
/// Where no consolidation is under way for the account and a balance is not
/// zero, the account is marked with the two amounts and the transfers to
/// make are handed out, one for each address that holds anything. Where one
/// is under way, or both balances are zero, nothing changes and no transfer
/// is handed out, so that no transfer is submitted twice. Nor is any handed
/// out before the operator has set a treasury: until then the funds rest
/// where they are.
///
/// No balance of the lottery changes: funds found at a custodial address are
/// never credited here.
pub fn plan_consolidation(
    state: &mut LotteryState,
    identity: &Identity,
    main_balance: u64,
    deposit_balance: u64,
    now: u64,
) -> (r: Result<Vec<SweepRequest>, LotteryError>)
    requires
        old(state).wf(),
    ensures
        final(state).wf(),
        final(state)@ == after_consolidation(old(state)@, identity@, main_balance, deposit_balance),
        match r {
            Ok(requests) => {
                &&& consolidation_refusal(old(state)@, identity@) is None
                &&& request_views(requests@) == planned_requests(
                    old(state)@,
                    identity@,
                    main_balance,
                    deposit_balance,
                    now,
                )
            },
            Err(e) => consolidation_refusal(old(state)@, identity@) == Some(e),
        },
        final(state)@.users.len() == old(state)@.users.len(),
        forall|j: int|
            0 <= j < old(state)@.users.len() ==> (#[trigger] final(state)@.users[j]).balance
                == old(state)@.users[j].balance,
{
    let i = match state.find_user(identity) {
        Some(i) => i,
        None => {
            return Err(LotteryError::AccountNotFound);
        },
    };
    let mut requests: Vec<SweepRequest> = Vec::new();
    let marked = state.users[i].pending_sweep;
    if state.treasury.is_none() || marked.main > 0 || marked.deposit > 0 || (main_balance == 0
        && deposit_balance == 0) {
        assert(request_views(requests@) =~= Seq::empty());
        return Ok(requests);
    }
    let treasury = match &state.treasury {
        Some(treasury) => treasury.clone(),
        None => unreached(),
    };
    let ghost before = state@;
    let ghost user = state@.users[i as int];
    if main_balance > 0 {
        let request = SweepRequest {
            leg: SweepLeg::Main,
            transfer: TransferArgs {
                to: treasury.clone(),
                amount: main_balance,
                fee: Some(TRANSFER_FEE),
                memo: Some(sweep_memo(SweepLeg::Main, &state.users[i].principal_text)),
                from_subaccount: None,
                created_at_time: Some(now),
            },
        };
        assert(request@ == sweep_request(treasury@, user, SweepLeg::Main, main_balance, now));
        requests.push(request);
    }
    if deposit_balance > 0 {
        let request = SweepRequest {
            leg: SweepLeg::Deposit,
            transfer: TransferArgs {
                to: treasury.clone(),
                amount: deposit_balance,
                fee: Some(TRANSFER_FEE),
                memo: Some(sweep_memo(SweepLeg::Deposit, &state.users[i].principal_text)),
                from_subaccount: clone_bytes(&state.users[i].deposit_account.subaccount),
                created_at_time: Some(now),
            },
        };
        assert(request@ == sweep_request(
            treasury@,
            user,
            SweepLeg::Deposit,
            deposit_balance,
            now,
        ));
        requests.push(request);
    }
    state.users[i].pending_sweep = PendingSweep { main: main_balance, deposit: deposit_balance };
    proof {
        assert(request_views(requests@) =~= sweep_requests(
            treasury@,
            user,
            main_balance,
            deposit_balance,
            now,
        ));
        let after = consolidation_started(before, identity@, main_balance, deposit_balance);
        assert(state@.users =~= after.users);
        assert(state@ =~= after);
        lemma_update_keeps_accounts(before.users, i as int, after.users[i as int]);
    }
    Ok(requests)
}

/// What a read of a balance found: the balance, or nothing where the read
/// failed.
pub open spec fn found(balance: Option<u64>) -> u64 {
    match balance {
        Some(amount) => amount,
        None => 0,
    }
}

/// Plans the consolidation of an identity's custodial funds with what was
/// read from the ledger.
///
/// `main_balance` and `deposit_balance` are what the ledger reported for the
/// identity's main account and deposit account, each missing where the read
/// failed. An address whose balance could not be read is left for a later
/// consolidation, like one that holds nothing. With that, this is
/// [`plan_consolidation`].
pub fn auto_check_and_consolidate_balance(
    state: &mut LotteryState,
    identity: &Identity,
    main_balance: Option<u64>,
    deposit_balance: Option<u64>,
    now: u64,
) -> (r: Result<Vec<SweepRequest>, LotteryError>)
    requires
        old(state).wf(),
    ensures
        final(state).wf(),
        final(state)@ == after_consolidation(
            old(state)@,
            identity@,
            found(main_balance),
            found(deposit_balance),
        ),
        match r {
            Ok(requests) => {
                &&& consolidation_refusal(old(state)@, identity@) is None
                &&& request_views(requests@) == planned_requests(
                    old(state)@,
                    identity@,
                    found(main_balance),
                    found(deposit_balance),
                    now,
                )
            },
            Err(e) => consolidation_refusal(old(state)@, identity@) == Some(e),
        },
        final(state)@.users.len() == old(state)@.users.len(),
        forall|j: int|
            0 <= j < old(state)@.users.len() ==> (#[trigger] final(state)@.users[j]).balance
                == old(state)@.users[j].balance,
{
    let main = match main_balance {
        Some(amount) => amount,
        None => 0,
    };
    let deposit = match deposit_balance {
        Some(amount) => amount,
        None => 0,
    };
    plan_consolidation(state, identity, main, deposit, now)
}

/// Why the answer to a consolidation transfer is refused, if it is: the
/// identity has no account, or no transfer of that leg is under way.
pub open spec fn sweep_refusal(s: StateView, id: Seq<u8>, leg: SweepLeg) -> Option<LotteryError> {
    if !has_account(s.users, id) {
        Some(LotteryError::AccountNotFound)
    } else if leg.pending(s.users[account_index(s.users, id)].pending_sweep) == 0 {
        Some(LotteryError::ValidationError)
    } else {
        None
    }
}

/// The record of a transfer that moved `amount` out of a custodial address
/// of `user` into the treasury, in the ledger block `block`.
pub open spec fn sweep_record(
    user: UserView,
    leg: SweepLeg,
    amount: u64,
    block: u64,
    now: u64,
) -> TransactionView {
    TransactionView {
        amount,
        timestamp: now,
        transaction_type: TransactionKind::ConsolidationSweep,
        tx_hash: Some(ExternalRefView::Block(block)),
        ckbtc_address: Some(leg.source(user)),
    }
}

/// The store after the transfer of one leg has ended: the leg is no longer
/// under way, and where the transfer yielded a reference, the amount that
/// was asked to move is recorded as moved.
pub open spec fn sweep_settled(
    s: StateView,
    id: Seq<u8>,
    leg: SweepLeg,
    reference: Option<u64>,
    now: u64,
) -> StateView {
    let i = account_index(s.users, id);
    let user = s.users[i];
    let amount = leg.pending(user.pending_sweep);
    s.with_user(
        i,
        UserView {
            pending_sweep: leg.cleared(user.pending_sweep),
            transaction_history: match reference {
                Some(block) => user.transaction_history.push(
                    sweep_record(user, leg, amount, block, now),
                ),
                None => user.transaction_history,
            },
            ..user
        },
    )
}

/// The store after the answer to a consolidation transfer was handed in:
/// settled where the answer is not refused, and otherwise as it was.
pub open spec fn after_sweep(
    s: StateView,
    id: Seq<u8>,
    leg: SweepLeg,
    reference: Option<u64>,
    now: u64,
) -> StateView {
    if sweep_refusal(s, id, leg) is None {
        sweep_settled(s, id, leg, reference, now)
    } else {
        s
    }
}

/// What handing in the answer to a consolidation transfer answers: the
/// refusal where there is one; the amount that was moved where the transfer
/// yielded a reference; and otherwise the error that the transfer ended
/// with.
pub open spec fn sweep_answer(
    s: StateView,
    id: Seq<u8>,
    leg: SweepLeg,
    outcome: TransferOutcome,
) -> Result<u64, LotteryError> {
    match sweep_refusal(s, id, leg) {
        Some(e) => Err(e),
        None => match outcome.reference() {
            Some(_) => Ok(leg.pending(s.users[account_index(s.users, id)].pending_sweep)),
            None => Err(outcome.failure()),
        },
    }
}

/// Settles one transfer of a consolidation with the ledger's answer.
///
/// Where the transfer yielded a reference, the amount that was asked to move
/// is appended to the account's log as a `ConsolidationSweep` and returned.
/// Where it did not, nothing is recorded: the funds still rest at the
/// custodial address, and the error says whether the ledger was unavailable
/// or rejected the transfer. Either way the leg is no longer under way, so
/// that a later consolidation can try again.
///
/// No balance of the lottery changes.
pub fn auto_consolidate_user_accounts(
    state: &mut LotteryState,
    identity: &Identity,
    leg: SweepLeg,
    outcome: &TransferOutcome,
    now: u64,
) -> (r: Result<u64, LotteryError>)
    requires
        old(state).wf(),
    ensures
        final(state).wf(),
        final(state)@ == after_sweep(old(state)@, identity@, leg, outcome.reference(), now),
        r == sweep_answer(old(state)@, identity@, leg, *outcome),
        final(state)@.users.len() == old(state)@.users.len(),
        forall|j: int|
            0 <= j < old(state)@.users.len() ==> (#[trigger] final(state)@.users[j]).balance
                == old(state)@.users[j].balance,
{
    let i = match state.find_user(identity) {
        Some(i) => i,
        None => {
            return Err(LotteryError::AccountNotFound);
        },
    };
    let amount = match leg {
        SweepLeg::Main => state.users[i].pending_sweep.main,
        SweepLeg::Deposit => state.users[i].pending_sweep.deposit,
    };
    if amount == 0 {
        return Err(LotteryError::ValidationError);
    }
    let ghost before = state@;
    let ghost user = state@.users[i as int];
    let ghost after = sweep_settled(before, identity@, leg, outcome.reference(), now);
    match leg {
        SweepLeg::Main => {
            state.users[i].pending_sweep.main = 0;
        },
        SweepLeg::Deposit => {
            state.users[i].pending_sweep.deposit = 0;
        },
    }
    let r = match outcome.settle() {
        Ok(block) => {
            let source = match leg {
                SweepLeg::Main => Account::main_of(identity),
                SweepLeg::Deposit => state.users[i].deposit_account.clone(),
            };
            let record = Transaction {
                amount,
                timestamp: now,
                transaction_type: TransactionKind::ConsolidationSweep,
                tx_hash: Some(ExternalRef::Block(block)),
                ckbtc_address: Some(source),
            };
            proof {
                assert(record@ == sweep_record(user, leg, amount, block, now));
                lemma_log_view_push(state.users[i as int].transaction_history@, record);
            }
            state.users[i].transaction_history.push(record);
            Ok(amount)
        },
        Err(e) => Err(e),
    };
    proof {
        assert(state@.users =~= after.users);
        assert(state@ =~= after);
        lemma_update_keeps_accounts(before.users, i as int, after.users[i as int]);
    }
    r
}

} // verus!
