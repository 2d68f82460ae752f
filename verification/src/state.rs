//! The store: everything the lottery holds, as one value that every
//! operation takes by reference, and the invariant that every operation
//! keeps.

use crate::account::{User, UserView};
use crate::deposit::{deposit_views, CkBtcDeposit, DepositView};
use crate::error::LotteryError;
use crate::identity::{Account, AccountView, Identity};
use crate::round::{
    history_view, HistoricalWinner, HistoricalWinnerView, Round, RoundView, HISTORY_LIMIT,
    ROUND_DURATION,
};
use crate::stats::SystemStats;
use vstd::prelude::*;

verus! {

/// The views of the accounts of a directory, in order.
pub open spec fn user_views(users: Seq<User>) -> Seq<UserView> {
    users.map_values(|u: User| u@)
}

/// Whether the directory holds an account for the identity.
pub open spec fn has_account(users: Seq<UserView>, id: Seq<u8>) -> bool {
    exists|i: int| 0 <= i < users.len() && (#[trigger] users[i]).identity == id
}

/// The place of the identity's account in the directory, where it has one.
pub open spec fn account_index(users: Seq<UserView>, id: Seq<u8>) -> int {
    choose|i: int| 0 <= i < users.len() && (#[trigger] users[i]).identity == id
}

/// Whether no identity has two accounts.
pub open spec fn distinct_identities(users: Seq<UserView>) -> bool {
    forall|i: int, j: int|
        0 <= i < users.len() && 0 <= j < users.len() && i != j ==> (#[trigger] users[i]).identity
            != (#[trigger] users[j]).identity
}

/// Whether no external reference has two deposit records.
pub open spec fn distinct_hashes(deposits: Seq<DepositView>) -> bool {
    forall|i: int, j: int|
        0 <= i < deposits.len() && 0 <= j < deposits.len() && i != j ==> (
        #[trigger] deposits[i]).tx_hash != (#[trigger] deposits[j]).tx_hash
}

/// In a directory without double accounts, the account found at a place is
/// the identity's account.
pub proof fn lemma_account_index(users: Seq<UserView>, id: Seq<u8>, i: int)
    requires
        distinct_identities(users),
        0 <= i < users.len(),
        users[i].identity == id,
    ensures
        has_account(users, id),
        account_index(users, id) == i,
{
    let k = account_index(users, id);
    assert(0 <= k < users.len() && users[k].identity == id);
}

/// The whole store: the account directory, the current round, the counters,
/// the reported deposits, the remembered winners, the operator and the
/// treasury.
#[derive(Debug, PartialEq, Eq)]
pub struct LotteryState {
    /// The operator, once one has claimed the role.
    pub admin: Option<Identity>,
    /// The account directory, in the order the accounts were opened.
    pub users: Vec<User>,
    pub current_round: Round,
    pub stats: SystemStats,
    /// The reported deposits, in the order their references first came.
    pub ckbtc_deposits: Vec<CkBtcDeposit>,
    /// The most recent winners, oldest first.
    pub historical_winners: Vec<HistoricalWinner>,
    /// The custodial address into which swept funds are consolidated and
    /// from which withdrawals are paid, once the operator has set one.
    pub treasury: Option<Account>,
}

/// What a [`LotteryState`] holds.
#[verifier::ext_equal]
pub struct StateView {
    pub admin: Option<Seq<u8>>,
    pub users: Seq<UserView>,
    pub current_round: RoundView,
    pub stats: SystemStats,
    pub ckbtc_deposits: Seq<DepositView>,
    pub historical_winners: Seq<HistoricalWinnerView>,
    pub treasury: Option<AccountView>,
}

impl View for LotteryState {
    type V = StateView;

    open spec fn view(&self) -> StateView {
        StateView {
            admin: match self.admin {
                Some(a) => Some(a@),
                None => None,
            },
            users: user_views(self.users@),
            current_round: self.current_round@,
            stats: self.stats,
            ckbtc_deposits: deposit_views(self.ckbtc_deposits@),
            historical_winners: history_view(self.historical_winners@),
            treasury: Account::option_view(self.treasury),
        }
    }
}

impl Clone for LotteryState {
    fn clone(&self) -> (r: Self)
        ensures
            r@ == self@,
    {
        let mut users: Vec<User> = Vec::new();
        let mut i: usize = 0;
        while i < self.users.len()
            invariant
                i <= self.users.len(),
                users@.len() == i,
                forall|j: int| 0 <= j < i ==> (#[trigger] users@[j])@ == self.users@[j]@,
            decreases self.users.len() - i,
        {
            users.push(self.users[i].clone());
            i = i + 1;
        }
        let mut ckbtc_deposits: Vec<CkBtcDeposit> = Vec::new();
        let mut i: usize = 0;
        while i < self.ckbtc_deposits.len()
            invariant
                i <= self.ckbtc_deposits.len(),
                ckbtc_deposits@.len() == i,
                forall|j: int|
                    0 <= j < i ==> (#[trigger] ckbtc_deposits@[j])@ == self.ckbtc_deposits@[j]@,
            decreases self.ckbtc_deposits.len() - i,
        {
            ckbtc_deposits.push(self.ckbtc_deposits[i].clone());
            i = i + 1;
        }
        let mut historical_winners: Vec<HistoricalWinner> = Vec::new();
        let mut i: usize = 0;
        while i < self.historical_winners.len()
            invariant
                i <= self.historical_winners.len(),
                historical_winners@.len() == i,
                forall|j: int|
                    0 <= j < i ==> (#[trigger] historical_winners@[j])@
                        == self.historical_winners@[j]@,
            decreases self.historical_winners.len() - i,
        {
            historical_winners.push(self.historical_winners[i].clone());
            i = i + 1;
        }
        let r = LotteryState {
            admin: match &self.admin {
                Some(admin) => Some(admin.clone()),
                None => None,
            },
            users,
            current_round: self.current_round.clone(),
            stats: self.stats,
            ckbtc_deposits,
            historical_winners,
            treasury: match &self.treasury {
                Some(treasury) => Some(treasury.clone()),
                None => None,
            },
        };
        assert(r@.users =~= self@.users);
        assert(r@.ckbtc_deposits =~= self@.ckbtc_deposits);
        assert(r@.historical_winners =~= self@.historical_winners);
        r
    }
}

impl StateView {
    /// The store before anything has happened, opened at `now`: no accounts,
    /// round 0, no operator and no treasury.
    pub open spec fn fresh(now: u64) -> StateView
        recommends
            now + ROUND_DURATION <= u64::MAX,
    {
        StateView {
            admin: None,
            users: Seq::empty(),
            current_round: RoundView::opening(0, now),
            stats: SystemStats::zero(),
            ckbtc_deposits: Seq::empty(),
            historical_winners: Seq::empty(),
            treasury: None,
        }
    }

    /// The invariant of the store.
    ///
    /// - No identity has two accounts, and no external reference has two
    ///   deposit records.
    /// - No account has more reserved for withdrawals than it holds.
    /// - The current round is open: its prize pool is the ticket price times
    ///   the number of its stakes, it closes one round duration after it
    ///   opened, and it has no winner.
    /// - Every stake of the current round belongs to an account.
    /// - No more than `HISTORY_LIMIT` winners are remembered.
    pub open spec fn wf(self) -> bool {
        &&& distinct_identities(self.users)
        &&& distinct_hashes(self.ckbtc_deposits)
        &&& forall|i: int|
            0 <= i < self.users.len() ==> (#[trigger] self.users[i]).pending_withdrawals
                <= self.users[i].balance
        &&& self.current_round.wf()
        &&& forall|k: int|
            0 <= k < self.current_round.participants.len() ==> has_account(
                self.users,
                #[trigger] self.current_round.participants[k],
            )
        &&& self.historical_winners.len() <= HISTORY_LIMIT
    }

    /// Whether `caller` is the operator.
    pub open spec fn is_admin(self, caller: Seq<u8>) -> bool {
        self.admin == Some(caller)
    }

    /// The store with the account at place `i` replaced.
    pub open spec fn with_user(self, i: int, user: UserView) -> StateView {
        StateView { users: self.users.update(i, user), ..self }
    }
}

/// Replacing an account by one of the same identity keeps every identity's
/// place in the directory.
pub proof fn lemma_update_keeps_accounts(users: Seq<UserView>, i: int, user: UserView)
    requires
        0 <= i < users.len(),
        user.identity == users[i].identity,
    ensures
        distinct_identities(users) ==> distinct_identities(users.update(i, user)),
        forall|id: Seq<u8>| has_account(users, id) ==> has_account(users.update(i, user), id),
{
    let after = users.update(i, user);
    assert forall|id: Seq<u8>| has_account(users, id) implies has_account(after, id) by {
        let k = account_index(users, id);
        assert(after[k].identity == id);
    }
    if distinct_identities(users) {
        assert forall|a: int, b: int|
            0 <= a < after.len() && 0 <= b < after.len() && a != b implies (
        #[trigger] after[a]).identity != (#[trigger] after[b]).identity by {
            assert(users[a].identity != users[b].identity);
        }
    }
}

impl LotteryState {
    /// The invariant of the store; see [`StateView::wf`].
    pub open spec fn wf(&self) -> bool {
        self@.wf()
    }

    /// The store before anything has happened, opened at `now`. Refused with
    /// `CapacityExceeded` where the first round's close time would not fit a
    /// `u64`.
    pub fn new(now: u64) -> (r: Result<LotteryState, LotteryError>)
        ensures
            match r {
                Ok(state) => now + ROUND_DURATION <= u64::MAX && state@ == StateView::fresh(now)
                    && state.wf(),
                Err(e) => now + ROUND_DURATION > u64::MAX && e == LotteryError::CapacityExceeded,
            },
    {
        if now > u64::MAX - ROUND_DURATION {
            return Err(LotteryError::CapacityExceeded);
        }
        let state = LotteryState {
            admin: None,
            users: Vec::new(),
            current_round: Round::open(0, now),
            stats: SystemStats::default(),
            ckbtc_deposits: Vec::new(),
            historical_winners: Vec::new(),
            treasury: None,
        };
        assert(state@ =~= StateView::fresh(now));
        Ok(state)
    }

    /// The place of the identity's account in the directory.
    pub fn find_user(&self, identity: &Identity) -> (r: Option<usize>)
        requires
            self.wf(),
        ensures
            r is Some <==> has_account(self@.users, identity@),
            r matches Some(i) ==> i == account_index(self@.users, identity@) && i
                < self.users.len(),
    {
        let mut i: usize = 0;
        while i < self.users.len()
            invariant
                self.wf(),
                i <= self.users.len(),
                forall|j: int| 0 <= j < i ==> (#[trigger] self@.users[j]).identity != identity@,
            decreases self.users.len() - i,
        {
            if self.users[i].identity.same_as(identity) {
                proof {
                    assert(self@.users[i as int].identity == identity@);
                    lemma_account_index(self@.users, identity@, i as int);
                }
                return Some(i);
            }
            i = i + 1;
        }
        None
    }

    /// Whether the current round is due for its draw at `now`.
    pub fn round_is_due(&self, now: u64) -> (r: bool)
        ensures
            r == self@.current_round.due(now),
    {
        now >= self.current_round.end_time
    }

    /// Whether `caller` is the operator.
    pub fn is_admin(&self, caller: &Identity) -> (r: bool)
        ensures
            r == self@.is_admin(caller@),
    {
        match &self.admin {
            Some(admin) => admin.same_as(caller),
            None => false,
        }
    }
}

} // verus!
