//! The reconciliation engine: bringing an account's balance in line with
//! the deposits that are confirmed outside.
//!
//! The account's own log decides what has been credited already: the
//! entries that count as credited deposits add up to the recorded total.
//! Only what the confirmed total exceeds the recorded total by is credited,
//! and the credit is itself logged, so that the same deposit is never
//! credited twice. A confirmed total at or below the recorded total changes
//! nothing: a balance is never lowered by what was read outside.
//!
//! What is read outside are the balances of an identity's two custodial
//! addresses. A consolidation lowers them by what it moves into the
//! treasury, so the total that a reading confirms is what rests at the
//! addresses together with what the log records as moved. A reading is
//! taken in three steps: [`start_reading`] notes what has been moved so far,
//! the caller reads the two balances, and [`reconcile_reading`] reconciles
//! against the total, unless a consolidation has touched the account in
//! between.

use crate::account::{
    has_recent_win, lemma_log_view_push, recent_win, recorded_deposits, swept_total,
    total_recorded_deposits, total_swept, Transaction, TransactionKind, TransactionView,
    UserView,
};
use crate::deposit::{confirmed_deposits, total_confirmed_deposits};
use crate::error::LotteryError;
use crate::identity::{principal_of_text, text_of_principal, Identity};
use crate::state::{
    account_index, has_account, lemma_update_keeps_accounts, LotteryState, StateView,
};
use crate::stats::{counted, SystemStats};
use vstd::prelude::*;

verus! {

/// What a reconciliation against `confirmed` credits to the account at
/// `now`: the part of the confirmed total that the log does not cover yet,
/// and nothing while a win is within its cool-down.
///
/// The cool-down is a compensating control, not a guarantee: it keeps a
/// credit from being booked in the moment after a payout, in which the funds
/// seen outside may be the prize itself.
pub open spec fn reconciliation_credit(user: UserView, confirmed: u128, now: u64) -> nat {
    let recorded = recorded_deposits(user.transaction_history);
    if confirmed > recorded && !has_recent_win(user.transaction_history, now) {
        (confirmed - recorded) as nat
    } else {
        0
    }
}

/// Why a reconciliation is refused, if it is: the identity has no account,
/// or the balance with the credit would not fit a `u64`.
pub open spec fn reconciliation_refusal(
    s: StateView,
    id: Seq<u8>,
    confirmed: u128,
    now: u64,
) -> Option<LotteryError> {
    if !has_account(s.users, id) {
        Some(LotteryError::AccountNotFound)
    } else {
        let user = s.users[account_index(s.users, id)];
        if user.balance + reconciliation_credit(user, confirmed, now) > u64::MAX {
            Some(LotteryError::CapacityExceeded)
        } else {
            None
        }
    }
}

/// The record of a reconciliation credit.
pub open spec fn credit_record(user: UserView, credit: u64, now: u64) -> TransactionView {
    TransactionView {
        amount: credit,
        timestamp: now,
        transaction_type: TransactionKind::ReconciliationCredit,
        tx_hash: None,
        ckbtc_address: Some(user.deposit_account),
    }
}

/// The store after a reconciliation that is not refused. Where there is
/// something to credit, the balance grows by the credit, the credit is
/// recorded and counted, and the time is noted. Where there is nothing to
/// credit, nothing changes.
pub open spec fn reconciled(s: StateView, id: Seq<u8>, confirmed: u128, now: u64) -> StateView {
    let i = account_index(s.users, id);
    let user = s.users[i];
    let credit = reconciliation_credit(user, confirmed, now);
    if credit == 0 {
        s
    } else {
        StateView {
            users: s.users.update(
                i,
                UserView {
                    balance: (user.balance + credit) as u64,
                    transaction_history: user.transaction_history.push(
                        credit_record(user, credit as u64, now),
                    ),
                    last_balance_check: now,
                    ..user
                },
            ),
            stats: SystemStats {
                total_ckbtc_deposits: counted(s.stats.total_ckbtc_deposits, credit as u64),
                ..s.stats
            },
            ..s
        }
    }
}

/// The store after a reconciliation was asked for.
pub open spec fn after_reconciliation(
    s: StateView,
    id: Seq<u8>,
    confirmed: u128,
    now: u64,
) -> StateView {
    if reconciliation_refusal(s, id, confirmed, now) is None {
        reconciled(s, id, confirmed, now)
    } else {
        s
    }
}

/// Reconciles the account of `identity` against the total of deposits that
/// is confirmed outside, and returns what was credited.
pub fn reconcile(state: &mut LotteryState, identity: &Identity, confirmed: u128, now: u64) -> (r:
    Result<u64, LotteryError>)
    requires
        old(state).wf(),
    ensures
        final(state).wf(),
        final(state)@ == after_reconciliation(old(state)@, identity@, confirmed, now),
        match r {
            Ok(credit) => {
                &&& reconciliation_refusal(old(state)@, identity@, confirmed, now) is None
                &&& credit == reconciliation_credit(
                    old(state)@.users[account_index(old(state)@.users, identity@)],
                    confirmed,
                    now,
                )
            },
            Err(e) => reconciliation_refusal(old(state)@, identity@, confirmed, now) == Some(e),
        },
{
    let i = match state.find_user(identity) {
        Some(i) => i,
        None => {
            return Err(LotteryError::AccountNotFound);
        },
    };
    let recorded = total_recorded_deposits(&state.users[i].transaction_history);
    if confirmed <= recorded || recent_win(&state.users[i].transaction_history, now) {
        return Ok(0);
    }
    let difference = confirmed - recorded;
    if difference > (u64::MAX - state.users[i].balance) as u128 {
        return Err(LotteryError::CapacityExceeded);
    }
    let credit = difference as u64;
    let ghost before = state@;
    let ghost after = reconciled(before, identity@, confirmed, now);
    let record = Transaction {
        amount: credit,
        timestamp: now,
        transaction_type: TransactionKind::ReconciliationCredit,
        tx_hash: None,
        ckbtc_address: Some(state.users[i].deposit_account.clone()),
    };
    proof {
        assert(record@ == credit_record(before.users[i as int], credit, now));
        lemma_log_view_push(state.users[i as int].transaction_history@, record);
    }
    state.users[i].balance = state.users[i].balance + credit;
    state.users[i].transaction_history.push(record);
    state.users[i].last_balance_check = now;
    state.stats.total_ckbtc_deposits = state.stats.total_ckbtc_deposits.saturating_add(credit);
    proof {
        assert(state@.users =~= after.users);
        assert(state@ =~= after);
        lemma_update_keeps_accounts(before.users, i as int, after.users[i as int]);
    }
    Ok(credit)
}

/// The total that the operator has confirmed of the deposits reported by
/// the identity `id`.
pub open spec fn confirmed_for(s: StateView, id: Seq<u8>) -> nat {
    confirmed_deposits(s.ckbtc_deposits, text_of_principal(id))
}

/// Reconciles the account of the identity that `principal` spells against
/// the deposits that were reported for it and that the operator has
/// confirmed.
///
/// A text that is no principal is refused with `ValidationError`. Otherwise
/// this is [`reconcile`] for the identity that the text stands for, against
/// the total of its confirmed deposits.
pub fn update_balance_from_principal(state: &mut LotteryState, principal: &str, now: u64) -> (r:
    Result<u64, LotteryError>)
    requires
        old(state).wf(),
    ensures
        final(state).wf(),
        match principal_of_text(principal@) {
            Some(id) => {
                let confirmed = confirmed_for(old(state)@, id) as u128;
                &&& final(state)@ == after_reconciliation(old(state)@, id, confirmed, now)
                &&& match r {
                    Ok(credit) => {
                        &&& reconciliation_refusal(old(state)@, id, confirmed, now) is None
                        &&& credit == reconciliation_credit(
                            old(state)@.users[account_index(old(state)@.users, id)],
                            confirmed,
                            now,
                        )
                    },
                    Err(e) => reconciliation_refusal(old(state)@, id, confirmed, now) == Some(e),
                }
            },
            None => {
                &&& final(state)@ == old(state)@
                &&& r == Err::<u64, LotteryError>(LotteryError::ValidationError)
            },
        },
{
    let identity = match Identity::from_text(principal) {
        Ok(identity) => identity,
        Err(e) => {
            return Err(e);
        },
    };
    let text = match identity.to_text() {
        Some(text) => text,
        // A parsed identity is valid.
        None => unreached(),
    };
    let confirmed = total_confirmed_deposits(&state.ckbtc_deposits, &text);
    reconcile(state, &identity, confirmed, now)
}

/// What was read outside for one identity: the balances of its main
/// account and of its deposit account, each missing where the read failed,
/// and what the account's log recorded as moved into the treasury when the
/// read began.
#[derive(Debug, PartialEq, Eq)]
pub struct LedgerReading {
    pub identity: Identity,
    pub main_balance: Option<u64>,
    pub deposit_balance: Option<u64>,
    pub swept_before: u128,
}

/// What a [`LedgerReading`] holds.
#[verifier::ext_equal]
pub struct ReadingView {
    pub id: Seq<u8>,
    pub main_balance: Option<u64>,
    pub deposit_balance: Option<u64>,
    pub swept_before: u128,
}

impl View for LedgerReading {
    type V = ReadingView;

    open spec fn view(&self) -> ReadingView {
        ReadingView {
            id: self.identity@,
            main_balance: self.main_balance,
            deposit_balance: self.deposit_balance,
            swept_before: self.swept_before,
        }
    }
}

impl Clone for LedgerReading {
    fn clone(&self) -> (r: Self)
        ensures
            r@ == self@,
    {
        LedgerReading {
            identity: self.identity.clone(),
            main_balance: self.main_balance,
            deposit_balance: self.deposit_balance,
            swept_before: self.swept_before,
        }
    }
}

/// The views of a list of readings, in order.
pub open spec fn reading_views(readings: Seq<LedgerReading>) -> Seq<ReadingView> {
    readings.map_values(|r: LedgerReading| r@)
}

/// Whether a reading still tells of the account as it is: no consolidation
/// transfer is under way for it, and none has been recorded since the read
/// began. A transfer that is under way, or that went through meanwhile, may
/// have moved funds that the balances still show, or no longer show.
pub open spec fn reading_is_current(user: UserView, reading: ReadingView) -> bool {
    !user.pending_sweep.in_flight() && swept_total(user.transaction_history)
        == reading.swept_before
}

/// The total of deposits that a reading confirms: what rests at the two
/// custodial addresses, and what has been moved from them into the
/// treasury. Funds that were swept stay confirmed.
pub open spec fn confirmed_total(reading: ReadingView) -> int {
    match (reading.main_balance, reading.deposit_balance) {
        (Some(main), Some(deposit)) => main + deposit + reading.swept_before,
        _ => 0,
    }
}

/// Why a reading is not reconciled, if it is not. In this order: a read
/// failed (`LedgerUnavailable`); the identity has no account; the reading
/// is no longer current (`LedgerUnavailable`); the confirmed total does not
/// fit 128 bits.
pub open spec fn reading_refusal(s: StateView, reading: ReadingView) -> Option<LotteryError> {
    if reading.main_balance is None || reading.deposit_balance is None {
        Some(LotteryError::LedgerUnavailable)
    } else if !has_account(s.users, reading.id) {
        Some(LotteryError::AccountNotFound)
    } else if !reading_is_current(s.users[account_index(s.users, reading.id)], reading) {
        Some(LotteryError::LedgerUnavailable)
    } else if confirmed_total(reading) > u128::MAX {
        Some(LotteryError::CapacityExceeded)
    } else {
        None
    }
}

/// The store after one reading was handed in: reconciled against the total
/// that the reading confirms, and as it was where the reading is not
/// reconciled.
pub open spec fn after_reading(s: StateView, reading: ReadingView, now: u64) -> StateView {
    if reading_refusal(s, reading) is None {
        after_reconciliation(s, reading.id, confirmed_total(reading) as u128, now)
    } else {
        s
    }
}

/// What handing in one reading answers: why it is not reconciled, and
/// otherwise what [`reconcile`] answers against the total that the reading
/// confirms.
pub open spec fn reading_answer(s: StateView, reading: ReadingView, now: u64) -> Result<
    u64,
    LotteryError,
> {
    match reading_refusal(s, reading) {
        Some(e) => Err(e),
        None => {
            let confirmed = confirmed_total(reading) as u128;
            match reconciliation_refusal(s, reading.id, confirmed, now) {
                Some(e) => Err(e),
                None => Ok(
                    reconciliation_credit(
                        s.users[account_index(s.users, reading.id)],
                        confirmed,
                        now,
                    ) as u64,
                ),
            }
        },
    }
}

/// The store after a list of readings was handed in, one after the other.
pub open spec fn after_readings(s: StateView, readings: Seq<ReadingView>, now: u64) -> StateView
    decreases readings.len(),
{
    if readings.len() == 0 {
        s
    } else {
        after_reading(after_readings(s, readings.drop_last(), now), readings.last(), now)
    }
}

/// Begins the reading of an identity's custodial addresses: the reading
/// holds what the log records as moved so far, and no balance yet. `None`
/// where the identity has no account.
pub fn start_reading(state: &LotteryState, identity: &Identity) -> (r: Option<LedgerReading>)
    requires
        state.wf(),
    ensures
        match r {
            Some(reading) => {
                &&& has_account(state@.users, identity@)
                &&& reading@.id == identity@
                &&& reading@.main_balance is None
                &&& reading@.deposit_balance is None
                &&& reading@.swept_before == swept_total(
                    state@.users[account_index(state@.users, identity@)].transaction_history,
                )
            },
            None => !has_account(state@.users, identity@),
        },
{
    match state.find_user(identity) {
        Some(i) => Some(
            LedgerReading {
                identity: identity.clone(),
                main_balance: None,
                deposit_balance: None,
                swept_before: total_swept(&state.users[i].transaction_history),
            },
        ),
        None => None,
    }
}

/// Reconciles one account against what was read for it at its custodial
/// addresses.
///
/// What the reading confirms is what rests at the two addresses together
/// with what the log records as moved into the treasury, so that a deposit
/// that arrives after a sweep is credited like any other. A reading of which
/// a read failed, or that is no longer current, is answered with
/// `LedgerUnavailable` and changes nothing; the next reading will do.
pub fn reconcile_reading(state: &mut LotteryState, reading: &LedgerReading, now: u64) -> (r: Result<
    u64,
    LotteryError,
>)
    requires
        old(state).wf(),
    ensures
        final(state).wf(),
        final(state)@ == after_reading(old(state)@, reading@, now),
        r == reading_answer(old(state)@, reading@, now),
{
    let (main, deposit) = match (reading.main_balance, reading.deposit_balance) {
        (Some(main), Some(deposit)) => (main, deposit),
        _ => {
            return Err(LotteryError::LedgerUnavailable);
        },
    };
    let i = match state.find_user(&reading.identity) {
        Some(i) => i,
        None => {
            return Err(LotteryError::AccountNotFound);
        },
    };
    let marked = state.users[i].pending_sweep;
    if marked.main > 0 || marked.deposit > 0 {
        return Err(LotteryError::LedgerUnavailable);
    }
    if total_swept(&state.users[i].transaction_history) != reading.swept_before {
        return Err(LotteryError::LedgerUnavailable);
    }
    let confirmed = match (main as u128 + deposit as u128).checked_add(reading.swept_before) {
        Some(confirmed) => confirmed,
        None => {
            return Err(LotteryError::CapacityExceeded);
        },
    };
    reconcile(state, &reading.identity, confirmed, now)
}

/// Reconciles every identity of a sweep, each on its own.
///
/// A reading that is not reconciled, or a reconciliation that is refused,
/// is answered with its error and changes nothing; the readings after it
/// are reconciled all the same. The answers come in the order of the
/// readings.
pub fn reconcile_all(state: &mut LotteryState, readings: &Vec<LedgerReading>, now: u64) -> (answers:
    Vec<Result<u64, LotteryError>>)
    requires
        old(state).wf(),
    ensures
        final(state).wf(),
        final(state)@ == after_readings(old(state)@, reading_views(readings@), now),
        answers@.len() == readings@.len(),
        forall|k: int|
            0 <= k < readings@.len() ==> #[trigger] answers@[k] == reading_answer(
                after_readings(old(state)@, reading_views(readings@).take(k), now),
                reading_views(readings@)[k],
                now,
            ),
{
    let ghost before = state@;
    let ghost views = reading_views(readings@);
    let mut answers: Vec<Result<u64, LotteryError>> = Vec::new();
    let mut i: usize = 0;
    while i < readings.len()
        invariant
            i <= readings.len(),
            views == reading_views(readings@),
            state.wf(),
            state@ == after_readings(before, views.take(i as int), now),
            answers@.len() == i,
            forall|k: int|
                0 <= k < i ==> #[trigger] answers@[k] == reading_answer(
                    after_readings(before, views.take(k), now),
                    views[k],
                    now,
                ),
        decreases readings.len() - i,
    {
        proof {
            let next = views.take(i + 1);
            assert(next.drop_last() =~= views.take(i as int));
            assert(next.last() == readings@[i as int]@);
        }
        let answer = reconcile_reading(state, &readings[i], now);
        answers.push(answer);
        i = i + 1;
    }
    assert(views.take(i as int) =~= views);
    answers
}

} // verus!
