//! What the lottery holds for one identity: its balance, its transaction
//! log, its winnings, and what is under way for it.
//!
//! The log is append-only and is the audit trail: what has been credited as
//! a deposit, and what has been moved into the treasury, is read off it.

use crate::identity::{Account, AccountView, Identity};
use vstd::prelude::*;

verus! {

/// After a win is credited, reconciliation credits to the same account are
/// held back for this long (nanoseconds).
pub const WIN_COOLDOWN: u64 = 60_000_000_000;

/// What a transaction record stands for.
#[derive(Clone, Copy, Debug, PartialEq, Eq, Structural)]
pub enum TransactionKind {
    /// A deposit that its owner reported; credited when it was recorded.
    Deposit,
    /// The price of one ticket, debited.
    Bet,
    /// A prize pool, credited to the winner of a round.
    Win,
    /// A withdrawal that the ledger carried out, debited.
    Withdraw,
    /// Externally confirmed deposits that no earlier record covered, credited.
    ReconciliationCredit,
    /// Custodial funds that a transfer moved into the treasury. Changes no
    /// balance.
    ConsolidationSweep,
    /// A grant to a house account, credited.
    FakeRecharge,
}

impl TransactionKind {
    /// Whether a record of this kind counts as a credited deposit.
    pub open spec fn deposit_derived(self) -> bool {
        self == TransactionKind::Deposit || self == TransactionKind::ReconciliationCredit
    }

    /// Whether a record of this kind counts as a credited deposit.
    pub fn is_deposit_derived(self) -> (r: bool)
        ensures
            r == self.deposit_derived(),
    {
        match self {
            TransactionKind::Deposit => true,
            TransactionKind::ReconciliationCredit => true,
            _ => false,
        }
    }
}

/// An opaque receipt from outside: the hash that a depositor named, or the
/// index of the ledger block that holds a transfer.
#[derive(Debug, PartialEq, Eq)]
pub enum ExternalRef {
    Hash(String),
    Block(u64),
}

/// What an [`ExternalRef`] holds.
#[verifier::ext_equal]
pub enum ExternalRefView {
    Hash(Seq<char>),
    Block(u64),
}

impl View for ExternalRef {
    type V = ExternalRefView;

    open spec fn view(&self) -> ExternalRefView {
        match self {
            ExternalRef::Hash(h) => ExternalRefView::Hash(h@),
            ExternalRef::Block(b) => ExternalRefView::Block(*b),
        }
    }
}

impl Clone for ExternalRef {
    fn clone(&self) -> (r: Self)
        ensures
            r@ == self@,
    {
        match self {
            ExternalRef::Hash(h) => ExternalRef::Hash(h.clone()),
            ExternalRef::Block(b) => ExternalRef::Block(*b),
        }
    }
}

impl ExternalRef {
    /// The view of an optional reference.
    pub open spec fn option_view(reference: Option<ExternalRef>) -> Option<ExternalRefView> {
        match reference {
            Some(r) => Some(r@),
            None => None,
        }
    }
}

/// One entry of an account's transaction log. Entries are only ever
/// appended.
#[derive(Debug, PartialEq, Eq)]
pub struct Transaction {
    pub amount: u64,
    pub timestamp: u64,
    pub transaction_type: TransactionKind,
    pub tx_hash: Option<ExternalRef>,
    pub ckbtc_address: Option<Account>,
}

/// What a [`Transaction`] holds.
#[verifier::ext_equal]
pub struct TransactionView {
    pub amount: u64,
    pub timestamp: u64,
    pub transaction_type: TransactionKind,
    pub tx_hash: Option<ExternalRefView>,
    pub ckbtc_address: Option<AccountView>,
}

impl View for Transaction {
    type V = TransactionView;

    open spec fn view(&self) -> TransactionView {
        TransactionView {
            amount: self.amount,
            timestamp: self.timestamp,
            transaction_type: self.transaction_type,
            tx_hash: ExternalRef::option_view(self.tx_hash),
            ckbtc_address: Account::option_view(self.ckbtc_address),
        }
    }
}

impl Clone for Transaction {
    fn clone(&self) -> (r: Self)
        ensures
            r@ == self@,
    {
        Transaction {
            amount: self.amount,
            timestamp: self.timestamp,
            transaction_type: self.transaction_type,
            tx_hash: match &self.tx_hash {
                Some(h) => Some(h.clone()),
                None => None,
            },
            ckbtc_address: match &self.ckbtc_address {
                Some(a) => Some(a.clone()),
                None => None,
            },
        }
    }
}

/// The views of the entries of a log, in order.
pub open spec fn log_view(log: Seq<Transaction>) -> Seq<TransactionView> {
    log.map_values(|t: Transaction| t@)
}

/// Appending an entry to a log appends its view to the log's view.
pub proof fn lemma_log_view_push(log: Seq<Transaction>, entry: Transaction)
    ensures
        log_view(log.push(entry)) == log_view(log).push(entry@),
{
    assert(log_view(log.push(entry)) =~= log_view(log).push(entry@));
}

/// Copies a log.
pub fn clone_log(log: &Vec<Transaction>) -> (r: Vec<Transaction>)
    ensures
        log_view(r@) == log_view(log@),
{
    let mut out: Vec<Transaction> = Vec::new();
    let mut i: usize = 0;
    while i < log.len()
        invariant
            i <= log.len(),
            out@.len() == i,
            forall|j: int| 0 <= j < i ==> (#[trigger] out@[j])@ == log@[j]@,
        decreases log.len() - i,
    {
        out.push(log[i].clone());
        i = i + 1;
    }
    assert(log_view(out@) =~= log_view(log@));
    out
}

/// The total of the entries that count as credited deposits.
pub open spec fn recorded_deposits(log: Seq<TransactionView>) -> nat
    decreases log.len(),
{
    if log.len() == 0 {
        0
    } else {
        recorded_deposits(log.drop_last()) + if log.last().transaction_type.deposit_derived() {
            log.last().amount as nat
        } else {
            0
        }
    }
}

/// The total that transfers have moved from the account's custodial
/// addresses into the treasury.
pub open spec fn swept_total(log: Seq<TransactionView>) -> nat
    decreases log.len(),
{
    if log.len() == 0 {
        0
    } else {
        swept_total(log.drop_last()) + if log.last().transaction_type
            == TransactionKind::ConsolidationSweep {
            log.last().amount as nat
        } else {
            0
        }
    }
}

/// Whether a win at `timestamp` is still within the cool-down at `now`. A
/// win that is stamped later than `now` is.
pub open spec fn win_is_recent(timestamp: u64, now: u64) -> bool {
    now - timestamp < WIN_COOLDOWN
}

/// Whether the log holds a win that is still within the cool-down at `now`.
pub open spec fn has_recent_win(log: Seq<TransactionView>, now: u64) -> bool {
    exists|i: int|
        0 <= i < log.len() && (#[trigger] log[i]).transaction_type == TransactionKind::Win
            && win_is_recent(log[i].timestamp, now)
}

/// Appending an entry adds its amount to the credited deposits where it
/// counts as one, and to the swept total where it is a sweep.
pub proof fn lemma_totals_push(log: Seq<TransactionView>, entry: TransactionView)
    ensures
        recorded_deposits(log.push(entry)) == recorded_deposits(log)
            + if entry.transaction_type.deposit_derived() {
            entry.amount as nat
        } else {
            0
        },
        swept_total(log.push(entry)) == swept_total(log) + if entry.transaction_type
            == TransactionKind::ConsolidationSweep {
            entry.amount as nat
        } else {
            0
        },
{
    assert(log.push(entry).drop_last() =~= log);
}

/// The total of the first `n` entries is at most `n` times the largest
/// amount.
proof fn lemma_totals_bounded(log: Seq<TransactionView>)
    ensures
        recorded_deposits(log) <= log.len() * u64::MAX,
        swept_total(log) <= log.len() * u64::MAX,
    decreases log.len(),
{
    if log.len() > 0 {
        lemma_totals_bounded(log.drop_last());
        assert((log.len() - 1) * u64::MAX + u64::MAX == log.len() * u64::MAX) by (nonlinear_arith);
    }
}

/// The total of the entries of a log that count as credited deposits.
pub fn total_recorded_deposits(log: &Vec<Transaction>) -> (r: u128)
    ensures
        r == recorded_deposits(log_view(log@)),
{
    let ghost views = log_view(log@);
    let mut total: u128 = 0;
    let mut i: usize = 0;
    while i < log.len()
        invariant
            i <= log.len(),
            views == log_view(log@),
            total == recorded_deposits(views.take(i as int)),
        decreases log.len() - i,
    {
        proof {
            let next = views.take(i + 1);
            assert(next.drop_last() =~= views.take(i as int));
            assert(next.last() == log@[i as int]@);
            lemma_totals_bounded(next);
            assert(next.len() * u64::MAX <= u128::MAX) by (nonlinear_arith)
                requires
                    next.len() <= usize::MAX,
            ;
        }
        if log[i].transaction_type.is_deposit_derived() {
            total = total + log[i].amount as u128;
        }
        i = i + 1;
    }
    assert(views.take(i as int) =~= views);
    total
}

/// The total that the log records as moved into the treasury.
pub fn total_swept(log: &Vec<Transaction>) -> (r: u128)
    ensures
        r == swept_total(log_view(log@)),
{
    let ghost views = log_view(log@);
    let mut total: u128 = 0;
    let mut i: usize = 0;
    while i < log.len()
        invariant
            i <= log.len(),
            views == log_view(log@),
            total == swept_total(views.take(i as int)),
        decreases log.len() - i,
    {
        proof {
            let next = views.take(i + 1);
            assert(next.drop_last() =~= views.take(i as int));
            assert(next.last() == log@[i as int]@);
            lemma_totals_bounded(next);
            assert(next.len() * u64::MAX <= u128::MAX) by (nonlinear_arith)
                requires
                    next.len() <= usize::MAX,
            ;
        }
        match log[i].transaction_type {
            TransactionKind::ConsolidationSweep => {
                total = total + log[i].amount as u128;
            },
            _ => {},
        }
        i = i + 1;
    }
    assert(views.take(i as int) =~= views);
    total
}

/// Whether the log holds a win that is still within the cool-down at `now`.
pub fn recent_win(log: &Vec<Transaction>, now: u64) -> (r: bool)
    ensures
        r == has_recent_win(log_view(log@), now),
{
    let ghost views = log_view(log@);
    let mut i: usize = 0;
    while i < log.len()
        invariant
            i <= log.len(),
            views == log_view(log@),
            forall|j: int|
                0 <= j < i ==> !((#[trigger] views[j]).transaction_type == TransactionKind::Win
                    && win_is_recent(views[j].timestamp, now)),
        decreases log.len() - i,
    {
        let is_win = match log[i].transaction_type {
            TransactionKind::Win => true,
            _ => false,
        };
        if is_win && (log[i].timestamp > now || now - log[i].timestamp < WIN_COOLDOWN) {
            assert(views[i as int].transaction_type == TransactionKind::Win && win_is_recent(
                views[i as int].timestamp,
                now,
            ));
            return true;
        }
        i = i + 1;
    }
    false
}

/// A prize that an account has won.
#[derive(Clone, Copy, Debug, PartialEq, Eq, Structural)]
pub struct Winning {
    pub amount: u64,
    pub timestamp: u64,
    pub round_id: u64,
}

/// The transfers of one consolidation that are under way: the amount asked
/// to leave the main account and the amount asked to leave the deposit
/// account, each 0 where no transfer is under way.
#[derive(Clone, Copy, Debug, PartialEq, Eq, Structural)]
pub struct PendingSweep {
    pub main: u64,
    pub deposit: u64,
}

impl PendingSweep {
    /// Whether any transfer is under way.
    pub open spec fn in_flight(self) -> bool {
        self.main > 0 || self.deposit > 0
    }
}

/// What the lottery holds for one identity.
#[derive(Debug, PartialEq, Eq)]
pub struct User {
    pub identity: Identity,
    pub balance: u64,
    pub transaction_history: Vec<Transaction>,
    pub winning_history: Vec<Winning>,
    pub deposit_account: Account,
    pub principal_text: String,
    pub last_balance_check: u64,
    /// The part of `balance` that withdrawals under way have reserved.
    pub pending_withdrawals: u64,
    /// The consolidation transfers under way.
    pub pending_sweep: PendingSweep,
}

/// What a [`User`] holds.
#[verifier::ext_equal]
pub struct UserView {
    pub identity: Seq<u8>,
    pub balance: u64,
    pub transaction_history: Seq<TransactionView>,
    pub winning_history: Seq<Winning>,
    pub deposit_account: AccountView,
    pub principal_text: Seq<char>,
    pub last_balance_check: u64,
    pub pending_withdrawals: u64,
    pub pending_sweep: PendingSweep,
}

impl View for User {
    type V = UserView;

    open spec fn view(&self) -> UserView {
        UserView {
            identity: self.identity@,
            balance: self.balance,
            transaction_history: log_view(self.transaction_history@),
            winning_history: self.winning_history@,
            deposit_account: self.deposit_account@,
            principal_text: self.principal_text@,
            last_balance_check: self.last_balance_check,
            pending_withdrawals: self.pending_withdrawals,
            pending_sweep: self.pending_sweep,
        }
    }
}

impl Clone for User {
    fn clone(&self) -> (r: Self)
        ensures
            r@ == self@,
    {
        let winning_history = self.winning_history.clone();
        assert(winning_history@ =~= self.winning_history@);
        User {
            identity: self.identity.clone(),
            balance: self.balance,
            transaction_history: clone_log(&self.transaction_history),
            winning_history,
            deposit_account: self.deposit_account.clone(),
            principal_text: self.principal_text.clone(),
            last_balance_check: self.last_balance_check,
            pending_withdrawals: self.pending_withdrawals,
            pending_sweep: self.pending_sweep,
        }
    }
}

impl Default for User {
    /// The empty account of the anonymous identity.
    fn default() -> (r: Self)
        ensures
            r@ == (UserView {
                identity: seq![4u8],
                balance: 0,
                transaction_history: Seq::empty(),
                winning_history: Seq::empty(),
                deposit_account: AccountView { owner: seq![4u8], subaccount: None },
                principal_text: Seq::empty(),
                last_balance_check: 0,
                pending_withdrawals: 0,
                pending_sweep: PendingSweep { main: 0, deposit: 0 },
            }),
    {
        let r = User {
            identity: Identity::anonymous(),
            balance: 0,
            transaction_history: Vec::new(),
            winning_history: Vec::new(),
            deposit_account: Account::default(),
            principal_text: String::new(),
            last_balance_check: 0,
            pending_withdrawals: 0,
            pending_sweep: PendingSweep { main: 0, deposit: 0 },
        };
        assert(r@.transaction_history =~= Seq::empty());
        r
    }
}

impl UserView {
    /// The part of the balance that no withdrawal under way has reserved.
    pub open spec fn available(self) -> int {
        self.balance - self.pending_withdrawals
    }
}

} // verus!
