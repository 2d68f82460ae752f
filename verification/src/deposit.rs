//! Deposits as their owners report them, and the operator's confirmation.
//!
//! A reported deposit is credited when it is recorded and logged with its
//! external reference. The record is kept under that reference, first as
//! pending and, once the operator has confirmed it, as confirmed. A
//! reference is recorded once: a second report under it, by whomever, is
//! refused and credits nothing. The confirmed records are what an account is
//! reconciled against on request.

use crate::account::{
    lemma_log_view_push, ExternalRef, ExternalRefView, Transaction, TransactionKind,
    TransactionView, UserView,
};
use crate::directory::{lemma_push_account, new_account, open_account, with_account};
use crate::error::LotteryError;
use crate::identity::{text_of_principal, Account, AccountView, Identity, MAX_IDENTITY_BYTES};
use crate::state::{
    account_index, distinct_hashes, has_account, lemma_update_keeps_accounts, LotteryState,
    StateView,
};
use crate::stats::{counted, SystemStats};
use vstd::prelude::*;

verus! {

/// Whether the operator has confirmed a reported deposit.
#[derive(Clone, Copy, Debug, PartialEq, Eq, Structural)]
pub enum DepositStatus {
    Pending,
    Confirmed,
}

/// A deposit as its owner reported it, kept under its external reference.
#[derive(Debug, PartialEq, Eq)]
pub struct CkBtcDeposit {
    pub principal: String,
    pub amount: u64,
    pub tx_hash: String,
    pub timestamp: u64,
    pub status: DepositStatus,
}

/// What a [`CkBtcDeposit`] holds.
#[verifier::ext_equal]
pub struct DepositView {
    pub principal: Seq<char>,
    pub amount: u64,
    pub tx_hash: Seq<char>,
    pub timestamp: u64,
    pub status: DepositStatus,
}

impl View for CkBtcDeposit {
    type V = DepositView;

    open spec fn view(&self) -> DepositView {
        DepositView {
            principal: self.principal@,
            amount: self.amount,
            tx_hash: self.tx_hash@,
            timestamp: self.timestamp,
            status: self.status,
        }
    }
}

impl Clone for CkBtcDeposit {
    fn clone(&self) -> (r: Self)
        ensures
            r@ == self@,
    {
        CkBtcDeposit {
            principal: self.principal.clone(),
            amount: self.amount,
            tx_hash: self.tx_hash.clone(),
            timestamp: self.timestamp,
            status: self.status,
        }
    }
}

/// The views of a list of deposits, in order.
pub open spec fn deposit_views(deposits: Seq<CkBtcDeposit>) -> Seq<DepositView> {
    deposits.map_values(|d: CkBtcDeposit| d@)
}

/// The total of the confirmed deposits that were reported for `principal`.
pub open spec fn confirmed_deposits(deposits: Seq<DepositView>, principal: Seq<char>) -> nat
    decreases deposits.len(),
{
    if deposits.len() == 0 {
        0
    } else {
        let last = deposits.last();
        confirmed_deposits(deposits.drop_last(), principal) + if last.principal == principal
            && last.status == DepositStatus::Confirmed {
            last.amount as nat
        } else {
            0
        }
    }
}

/// The total of confirmed deposits is at most the number of deposits times
/// the largest amount.
proof fn lemma_confirmed_bounded(deposits: Seq<DepositView>, principal: Seq<char>)
    ensures
        confirmed_deposits(deposits, principal) <= deposits.len() * u64::MAX,
    decreases deposits.len(),
{
    if deposits.len() > 0 {
        lemma_confirmed_bounded(deposits.drop_last(), principal);
        assert((deposits.len() - 1) * u64::MAX + u64::MAX == deposits.len() * u64::MAX)
            by (nonlinear_arith);
    }
}

/// The total of the confirmed deposits that were reported for `principal`.
pub fn total_confirmed_deposits(deposits: &Vec<CkBtcDeposit>, principal: &String) -> (r: u128)
    ensures
        r == confirmed_deposits(deposit_views(deposits@), principal@),
{
    let ghost views = deposit_views(deposits@);
    let mut total: u128 = 0;
    let mut i: usize = 0;
    while i < deposits.len()
        invariant
            i <= deposits.len(),
            views == deposit_views(deposits@),
            total == confirmed_deposits(views.take(i as int), principal@),
        decreases deposits.len() - i,
    {
        proof {
            let next = views.take(i + 1);
            assert(next.drop_last() =~= views.take(i as int));
            assert(next.last() == deposits@[i as int]@);
            lemma_confirmed_bounded(next, principal@);
            assert(next.len() * u64::MAX <= u128::MAX) by (nonlinear_arith)
                requires
                    next.len() <= usize::MAX,
            ;
        }
        let confirmed = match deposits[i].status {
            DepositStatus::Confirmed => true,
            DepositStatus::Pending => false,
        };
        if confirmed && deposits[i].principal == *principal {
            total = total + deposits[i].amount as u128;
        }
        i = i + 1;
    }
    assert(views.take(i as int) =~= views);
    total
}

/// Whether a deposit is recorded under the reference.
pub open spec fn has_deposit(deposits: Seq<DepositView>, hash: Seq<char>) -> bool {
    exists|i: int| 0 <= i < deposits.len() && (#[trigger] deposits[i]).tx_hash == hash
}

/// The place of the deposit that is recorded under the reference, where
/// there is one.
pub open spec fn deposit_index(deposits: Seq<DepositView>, hash: Seq<char>) -> int {
    choose|i: int| 0 <= i < deposits.len() && (#[trigger] deposits[i]).tx_hash == hash
}

/// Where no reference has two records, the record found at a place is the
/// reference's record.
pub proof fn lemma_deposit_index(deposits: Seq<DepositView>, hash: Seq<char>, i: int)
    requires
        distinct_hashes(deposits),
        0 <= i < deposits.len(),
        deposits[i].tx_hash == hash,
    ensures
        has_deposit(deposits, hash),
        deposit_index(deposits, hash) == i,
{
    let k = deposit_index(deposits, hash);
    assert(0 <= k < deposits.len() && deposits[k].tx_hash == hash);
}

/// Appending a record under a reference that has none leaves no reference
/// with two records.
pub proof fn lemma_pushed_distinct(deposits: Seq<DepositView>, deposit: DepositView)
    requires
        distinct_hashes(deposits),
        !has_deposit(deposits, deposit.tx_hash),
    ensures
        distinct_hashes(deposits.push(deposit)),
{
    let after = deposits.push(deposit);
    assert forall|a: int, b: int|
        0 <= a < after.len() && 0 <= b < after.len() && a != b implies (
    #[trigger] after[a]).tx_hash != (#[trigger] after[b]).tx_hash by {
        if a < deposits.len() && b < deposits.len() {
            assert(deposits[a].tx_hash != deposits[b].tx_hash);
        } else if a < deposits.len() {
            assert(deposits[a].tx_hash != deposit.tx_hash);
        } else {
            assert(deposits[b].tx_hash != deposit.tx_hash);
        }
    }
}

/// The place of the deposit that is recorded under the reference.
pub fn find_deposit(state: &LotteryState, tx_hash: &String) -> (r: Option<usize>)
    requires
        state.wf(),
    ensures
        r is Some <==> has_deposit(state@.ckbtc_deposits, tx_hash@),
        r matches Some(i) ==> i == deposit_index(state@.ckbtc_deposits, tx_hash@) && i
            < state.ckbtc_deposits.len(),
{
    let mut i: usize = 0;
    while i < state.ckbtc_deposits.len()
        invariant
            state.wf(),
            i <= state.ckbtc_deposits.len(),
            forall|j: int| 0 <= j < i ==> (#[trigger] state@.ckbtc_deposits[j]).tx_hash != tx_hash@,
        decreases state.ckbtc_deposits.len() - i,
    {
        if state.ckbtc_deposits[i].tx_hash == *tx_hash {
            proof {
                assert(state@.ckbtc_deposits[i as int].tx_hash == tx_hash@);
                lemma_deposit_index(state@.ckbtc_deposits, tx_hash@, i as int);
            }
            return Some(i);
        }
        i = i + 1;
    }
    None
}

/// A deposit as it is recorded: pending.
pub open spec fn deposit_entry(
    principal_text: Seq<char>,
    hash: Seq<char>,
    amount: u64,
    now: u64,
) -> DepositView {
    DepositView {
        principal: principal_text,
        amount,
        tx_hash: hash,
        timestamp: now,
        status: DepositStatus::Pending,
    }
}

/// The log entry of a reported deposit.
pub open spec fn deposit_record(
    user: UserView,
    hash: Seq<char>,
    amount: u64,
    now: u64,
) -> TransactionView {
    TransactionView {
        amount,
        timestamp: now,
        transaction_type: TransactionKind::Deposit,
        tx_hash: Some(ExternalRefView::Hash(hash)),
        ckbtc_address: Some(user.deposit_account),
    }
}

/// Whether the depositor's balance with the deposit fits a `u64`.
pub open spec fn deposit_fits(s: StateView, id: Seq<u8>, amount: u64) -> bool {
    has_account(s.users, id) ==> s.users[account_index(s.users, id)].balance + amount
        <= u64::MAX
}

/// Why the record of a deposit is refused, if it is. In this order: the
/// reference has a record already, whoever reported it; the balance with
/// the deposit would not fit a `u64`.
pub open spec fn record_refusal(
    s: StateView,
    id: Seq<u8>,
    hash: Seq<char>,
    amount: u64,
) -> Option<LotteryError> {
    if has_deposit(s.ckbtc_deposits, hash) {
        Some(LotteryError::ValidationError)
    } else if !deposit_fits(s, id, amount) {
        Some(LotteryError::CapacityExceeded)
    } else {
        None
    }
}

/// Why the report of a deposit is refused, if it is: the depositor is no
/// valid identity, or the record is refused.
pub open spec fn deposit_refusal(
    s: StateView,
    id: Seq<u8>,
    hash: Seq<char>,
    amount: u64,
) -> Option<LotteryError> {
    if id.len() > MAX_IDENTITY_BYTES {
        Some(LotteryError::ValidationError)
    } else {
        record_refusal(s, id, hash, amount)
    }
}

/// The store with an account for the depositor: as it was where the
/// depositor has one, and otherwise with a new account whose deposit account
/// is the depositor's main account, counted.
pub open spec fn with_depositor(
    s: StateView,
    id: Seq<u8>,
    principal_text: Seq<char>,
    now: u64,
) -> StateView {
    if has_account(s.users, id) {
        s
    } else {
        StateView {
            stats: SystemStats { active_users: counted(s.stats.active_users, 1), ..s.stats },
            ..with_account(
                s,
                new_account(
                    id,
                    principal_text,
                    AccountView { owner: id, subaccount: None },
                    0,
                    now,
                ),
            )
        }
    }
}

/// The store after a deposit was recorded under a reference that had no
/// record: the depositor has an account, the amount is credited to it and
/// logged with the reference, the deposit is appended as pending, and the
/// amount is counted.
pub open spec fn deposited(
    s: StateView,
    id: Seq<u8>,
    principal_text: Seq<char>,
    hash: Seq<char>,
    amount: u64,
    now: u64,
) -> StateView {
    let opened = with_depositor(s, id, principal_text, now);
    let i = account_index(opened.users, id);
    let user = opened.users[i];
    StateView {
        users: opened.users.update(
            i,
            UserView {
                balance: (user.balance + amount) as u64,
                transaction_history: user.transaction_history.push(
                    deposit_record(user, hash, amount, now),
                ),
                ..user
            },
        ),
        ckbtc_deposits: opened.ckbtc_deposits.push(
            deposit_entry(principal_text, hash, amount, now),
        ),
        stats: SystemStats {
            total_ckbtc_deposits: counted(opened.stats.total_ckbtc_deposits, amount),
            ..opened.stats
        },
        ..opened
    }
}

/// The store after the record of a deposit was asked for: with the deposit
/// recorded where the record is not refused, and otherwise as it was.
pub open spec fn after_record(
    s: StateView,
    id: Seq<u8>,
    principal_text: Seq<char>,
    hash: Seq<char>,
    amount: u64,
    now: u64,
) -> StateView {
    if record_refusal(s, id, hash, amount) is None {
        deposited(s, id, principal_text, hash, amount, now)
    } else {
        s
    }
}

/// Records a deposit of `amount` that `caller` reports under the reference
/// `tx_hash`, with `principal_text` as the text form of the caller.
///
/// An external deposit is credited once. A reference that has a record
/// already, the caller's or another's, pending or confirmed, is refused with
/// `ValidationError`: nothing is credited, nothing is counted, and the
/// record stays as it is. A deposit that would take the balance beyond a
/// `u64` is refused with `CapacityExceeded`. Otherwise the caller gets an
/// account if it has none, and the deposit is credited and recorded.
pub fn record_deposit(
    state: &mut LotteryState,
    caller: &Identity,
    principal_text: String,
    tx_hash: String,
    amount: u64,
    now: u64,
) -> (r: Result<(), LotteryError>)
    requires
        old(state).wf(),
    ensures
        final(state).wf(),
        final(state)@ == after_record(
            old(state)@,
            caller@,
            principal_text@,
            tx_hash@,
            amount,
            now,
        ),
        match r {
            Ok(_) => record_refusal(old(state)@, caller@, tx_hash@, amount) is None,
            Err(e) => record_refusal(old(state)@, caller@, tx_hash@, amount) == Some(e),
        },
        has_deposit(old(state)@.ckbtc_deposits, tx_hash@) ==> final(state)@ == old(state)@,
{
    if find_deposit(state, &tx_hash).is_some() {
        return Err(LotteryError::ValidationError);
    }
    match state.find_user(caller) {
        Some(i) => {
            if amount > u64::MAX - state.users[i].balance {
                return Err(LotteryError::CapacityExceeded);
            }
        },
        None => {},
    }
    let ghost before = state@;
    let ghost opened_view = with_depositor(before, caller@, principal_text@, now);
    let ghost after = deposited(before, caller@, principal_text@, tx_hash@, amount, now);
    let entry = CkBtcDeposit {
        principal: principal_text.clone(),
        amount,
        tx_hash: tx_hash.clone(),
        timestamp: now,
        status: DepositStatus::Pending,
    };
    let deposit_account = Account::main_of(caller);
    let opened = open_account(state, caller.clone(), principal_text, deposit_account, 0, now);
    if opened {
        state.stats.active_users = state.stats.active_users.saturating_add(1);
        proof {
            lemma_push_account(
                before.users,
                new_account(
                    caller@,
                    entry@.principal,
                    AccountView { owner: caller@, subaccount: None },
                    0,
                    now,
                ),
            );
        }
    }
    assert(state@ =~= opened_view);
    let i = match state.find_user(caller) {
        Some(i) => i,
        // The depositor has an account by now.
        None => unreached(),
    };
    let record = Transaction {
        amount,
        timestamp: now,
        transaction_type: TransactionKind::Deposit,
        tx_hash: Some(ExternalRef::Hash(tx_hash)),
        ckbtc_address: Some(state.users[i].deposit_account.clone()),
    };
    proof {
        assert(record@ == deposit_record(opened_view.users[i as int], entry@.tx_hash, amount, now));
        lemma_log_view_push(state.users[i as int].transaction_history@, record);
        assert(entry@ == deposit_entry(entry@.principal, entry@.tx_hash, amount, now));
        assert(!has_deposit(opened_view.ckbtc_deposits, entry@.tx_hash));
    }
    let ghost recorded = entry@;
    state.ckbtc_deposits.push(entry);
    assert(deposit_views(state.ckbtc_deposits@) =~= after.ckbtc_deposits);
    state.users[i].balance = state.users[i].balance + amount;
    state.users[i].transaction_history.push(record);
    state.stats.total_ckbtc_deposits = state.stats.total_ckbtc_deposits.saturating_add(amount);
    proof {
        assert(state@.users =~= after.users);
        assert(state@ =~= after);
        lemma_update_keeps_accounts(opened_view.users, i as int, after.users[i as int]);
        lemma_pushed_distinct(opened_view.ckbtc_deposits, recorded);
    }
    Ok(())
}

/// Records a deposit of `amount` that `caller` reports under the reference
/// `tx_hash`.
///
/// A caller that is no valid identity is refused with `ValidationError`.
/// Otherwise this is [`record_deposit`] with the text form of the caller: a
/// reference that has a record already is credited no second time.
pub fn record_ckbtc_deposit(
    state: &mut LotteryState,
    caller: &Identity,
    tx_hash: String,
    amount: u64,
    now: u64,
) -> (r: Result<(), LotteryError>)
    requires
        old(state).wf(),
    ensures
        final(state).wf(),
        match r {
            Ok(_) => {
                &&& deposit_refusal(old(state)@, caller@, tx_hash@, amount) is None
                &&& final(state)@ == deposited(
                    old(state)@,
                    caller@,
                    text_of_principal(caller@),
                    tx_hash@,
                    amount,
                    now,
                )
            },
            Err(e) => {
                &&& deposit_refusal(old(state)@, caller@, tx_hash@, amount) == Some(e)
                &&& final(state)@ == old(state)@
            },
        },
        has_deposit(old(state)@.ckbtc_deposits, tx_hash@) ==> final(state)@ == old(state)@ && r
            == Err::<(), LotteryError>(LotteryError::ValidationError),
{
    let text = match caller.to_text() {
        Some(text) => text,
        None => {
            return Err(LotteryError::ValidationError);
        },
    };
    record_deposit(state, caller, text, tx_hash, amount, now)
}

/// The store after the deposit under `hash` was confirmed: its record is
/// marked as confirmed where there is one.
pub open spec fn confirmed(s: StateView, hash: Seq<char>) -> StateView {
    if has_deposit(s.ckbtc_deposits, hash) {
        let i = deposit_index(s.ckbtc_deposits, hash);
        StateView {
            ckbtc_deposits: s.ckbtc_deposits.update(
                i,
                DepositView { status: DepositStatus::Confirmed, ..s.ckbtc_deposits[i] },
            ),
            ..s
        }
    } else {
        s
    }
}

/// Confirms the deposit that is recorded under `tx_hash`. Only the
/// operator may do so. Answers whether there is such a deposit.
pub fn confirm_ckbtc_deposit(state: &mut LotteryState, caller: &Identity, tx_hash: &String) -> (r:
    Result<bool, LotteryError>)
    requires
        old(state).wf(),
    ensures
        final(state).wf(),
        if old(state)@.is_admin(caller@) {
            &&& final(state)@ == confirmed(old(state)@, tx_hash@)
            &&& r == Ok::<bool, LotteryError>(has_deposit(old(state)@.ckbtc_deposits, tx_hash@))
        } else {
            &&& final(state)@ == old(state)@
            &&& r == Err::<bool, LotteryError>(LotteryError::Unauthorized)
        },
{
    if !state.is_admin(caller) {
        return Err(LotteryError::Unauthorized);
    }
    let ghost before = state@;
    match find_deposit(state, tx_hash) {
        Some(i) => {
            state.ckbtc_deposits[i].status = DepositStatus::Confirmed;
            proof {
                let after = confirmed(before, tx_hash@);
                assert(state@.ckbtc_deposits =~= after.ckbtc_deposits);
                assert(state@ =~= after);
                assert forall|a: int, b: int|
                    0 <= a < after.ckbtc_deposits.len() && 0 <= b < after.ckbtc_deposits.len() && a
                        != b implies (#[trigger] after.ckbtc_deposits[a]).tx_hash != (
                #[trigger] after.ckbtc_deposits[b]).tx_hash by {
                    assert(before.ckbtc_deposits[a].tx_hash != before.ckbtc_deposits[b].tx_hash);
                }
            }
            Ok(true)
        },
        None => Ok(false),
    }
}

/// The deposits among `deposits` that were reported for `principal`, in
/// order.
pub open spec fn deposits_of(deposits: Seq<DepositView>, principal: Seq<char>) -> Seq<DepositView>
    decreases deposits.len(),
{
    if deposits.len() == 0 {
        Seq::empty()
    } else {
        let rest = deposits_of(deposits.drop_last(), principal);
        if deposits.last().principal == principal {
            rest.push(deposits.last())
        } else {
            rest
        }
    }
}

/// The deposits among `deposits` that are pending, in order.
pub open spec fn pending_deposits(deposits: Seq<DepositView>) -> Seq<DepositView>
    decreases deposits.len(),
{
    if deposits.len() == 0 {
        Seq::empty()
    } else {
        let rest = pending_deposits(deposits.drop_last());
        if deposits.last().status == DepositStatus::Pending {
            rest.push(deposits.last())
        } else {
            rest
        }
    }
}

/// The deposits that were reported under the text form `principal`.
pub fn deposits_reported_by(state: &LotteryState, principal: &String) -> (r: Vec<CkBtcDeposit>)
    ensures
        deposit_views(r@) == deposits_of(state@.ckbtc_deposits, principal@),
{
    let ghost views = state@.ckbtc_deposits;
    let mut out: Vec<CkBtcDeposit> = Vec::new();
    let mut i: usize = 0;
    assert(deposit_views(out@) =~= deposits_of(views.take(0), principal@));
    while i < state.ckbtc_deposits.len()
        invariant
            i <= state.ckbtc_deposits.len(),
            views == state@.ckbtc_deposits,
            deposit_views(out@) == deposits_of(views.take(i as int), principal@),
        decreases state.ckbtc_deposits.len() - i,
    {
        proof {
            let next = views.take(i + 1);
            assert(next.drop_last() =~= views.take(i as int));
            assert(next.last() == state.ckbtc_deposits@[i as int]@);
        }
        if state.ckbtc_deposits[i].principal == *principal {
            let ghost kept = deposit_views(out@);
            let copy = state.ckbtc_deposits[i].clone();
            out.push(copy);
            assert(deposit_views(out@) =~= kept.push(copy@));
        }
        i = i + 1;
    }
    assert(views.take(i as int) =~= views);
    out
}

/// The deposits that `principal` has reported; none where the identity is
/// not valid.
pub fn get_user_ckbtc_deposits(state: &LotteryState, principal: &Identity) -> (r: Vec<
    CkBtcDeposit,
>)
    ensures
        deposit_views(r@) == if principal.wf() {
            deposits_of(state@.ckbtc_deposits, text_of_principal(principal@))
        } else {
            Seq::empty()
        },
{
    match principal.to_text() {
        Some(text) => deposits_reported_by(state, &text),
        None => {
            let out: Vec<CkBtcDeposit> = Vec::new();
            assert(deposit_views(out@) =~= Seq::empty());
            out
        },
    }
}

/// The deposits that the operator has not confirmed yet.
pub fn get_pending_ckbtc_deposits(state: &LotteryState) -> (r: Vec<CkBtcDeposit>)
    ensures
        deposit_views(r@) == pending_deposits(state@.ckbtc_deposits),
{
    let ghost views = state@.ckbtc_deposits;
    let mut out: Vec<CkBtcDeposit> = Vec::new();
    let mut i: usize = 0;
    assert(deposit_views(out@) =~= pending_deposits(views.take(0)));
    while i < state.ckbtc_deposits.len()
        invariant
            i <= state.ckbtc_deposits.len(),
            views == state@.ckbtc_deposits,
            deposit_views(out@) == pending_deposits(views.take(i as int)),
        decreases state.ckbtc_deposits.len() - i,
    {
        proof {
            let next = views.take(i + 1);
            assert(next.drop_last() =~= views.take(i as int));
            assert(next.last() == state.ckbtc_deposits@[i as int]@);
        }
        let pending = match state.ckbtc_deposits[i].status {
            DepositStatus::Pending => true,
            DepositStatus::Confirmed => false,
        };
        if pending {
            let ghost kept = deposit_views(out@);
            let copy = state.ckbtc_deposits[i].clone();
            out.push(copy);
            assert(deposit_views(out@) =~= kept.push(copy@));
        }
        i = i + 1;
    }
    assert(views.take(i as int) =~= views);
    out
}

} // verus!
