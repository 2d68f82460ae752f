//! Taking a store back in after a restart.
//!
//! What comes back from a checkpoint was written by an earlier run and may
//! be damaged. It is used only where it is well formed; otherwise the
//! lottery starts afresh rather than not at all.

use crate::account::User;
use crate::deposit::{deposit_views, CkBtcDeposit};
use crate::error::LotteryError;
use crate::identity::Identity;
use crate::round::{Round, HISTORY_LIMIT, ROUND_DURATION, TICKET_PRICE};
use crate::state::{
    distinct_hashes, distinct_identities, has_account, user_views, LotteryState, StateView,
};
use vstd::prelude::*;

verus! {

/// Whether the directory holds an account for the identity.
fn holds_account(users: &Vec<User>, identity: &Identity) -> (r: bool)
    ensures
        r == has_account(user_views(users@), identity@),
{
    let ghost views = user_views(users@);
    let mut i: usize = 0;
    while i < users.len()
        invariant
            i <= users.len(),
            views == user_views(users@),
            forall|j: int| 0 <= j < i ==> (#[trigger] views[j]).identity != identity@,
        decreases users.len() - i,
    {
        if users[i].identity.same_as(identity) {
            assert(views[i as int].identity == identity@);
            return true;
        }
        i = i + 1;
    }
    false
}

/// Whether no identity has two accounts.
fn identities_are_distinct(users: &Vec<User>) -> (r: bool)
    ensures
        r == distinct_identities(user_views(users@)),
{
    let ghost views = user_views(users@);
    let mut i: usize = 0;
    while i < users.len()
        invariant
            i <= users.len(),
            views == user_views(users@),
            forall|a: int, b: int|
                0 <= a < i && a < b < views.len() ==> (#[trigger] views[a]).identity != (
                #[trigger] views[b]).identity,
        decreases users.len() - i,
    {
        let mut j: usize = i + 1;
        while j < users.len()
            invariant
                i < j <= users.len(),
                views == user_views(users@),
                forall|b: int|
                    i < b < j ==> views[i as int].identity != (#[trigger] views[b]).identity,
            decreases users.len() - j,
        {
            if users[i].identity.same_as(&users[j].identity) {
                assert(views[i as int].identity == views[j as int].identity);
                return false;
            }
            j = j + 1;
        }
        i = i + 1;
    }
    assert forall|a: int, b: int|
        0 <= a < views.len() && 0 <= b < views.len() && a != b implies (
    #[trigger] views[a]).identity != (#[trigger] views[b]).identity by {
        if a < b {
            assert(views[a].identity != views[b].identity);
        } else {
            assert(views[b].identity != views[a].identity);
        }
    }
    true
}

/// Whether no external reference has two deposit records.
fn hashes_are_distinct(deposits: &Vec<CkBtcDeposit>) -> (r: bool)
    ensures
        r == distinct_hashes(deposit_views(deposits@)),
{
    let ghost views = deposit_views(deposits@);
    let mut i: usize = 0;
    while i < deposits.len()
        invariant
            i <= deposits.len(),
            views == deposit_views(deposits@),
            forall|a: int, b: int|
                0 <= a < i && a < b < views.len() ==> (#[trigger] views[a]).tx_hash != (
                #[trigger] views[b]).tx_hash,
        decreases deposits.len() - i,
    {
        let mut j: usize = i + 1;
        while j < deposits.len()
            invariant
                i < j <= deposits.len(),
                views == deposit_views(deposits@),
                forall|b: int|
                    i < b < j ==> views[i as int].tx_hash != (#[trigger] views[b]).tx_hash,
            decreases deposits.len() - j,
        {
            if deposits[i].tx_hash == deposits[j].tx_hash {
                assert(views[i as int].tx_hash == views[j as int].tx_hash);
                return false;
            }
            j = j + 1;
        }
        i = i + 1;
    }
    assert forall|a: int, b: int|
        0 <= a < views.len() && 0 <= b < views.len() && a != b implies (#[trigger] views[a]).tx_hash
        != (#[trigger] views[b]).tx_hash by {
        if a < b {
            assert(views[a].tx_hash != views[b].tx_hash);
        } else {
            assert(views[b].tx_hash != views[a].tx_hash);
        }
    }
    true
}

/// Whether no account has more reserved than it holds.
fn reservations_are_covered(users: &Vec<User>) -> (r: bool)
    ensures
        r == (forall|i: int|
            0 <= i < users@.len() ==> (#[trigger] user_views(users@)[i]).pending_withdrawals
                <= user_views(users@)[i].balance),
{
    let ghost views = user_views(users@);
    let mut i: usize = 0;
    while i < users.len()
        invariant
            i <= users.len(),
            views == user_views(users@),
            forall|j: int|
                0 <= j < i ==> (#[trigger] views[j]).pending_withdrawals <= views[j].balance,
        decreases users.len() - i,
    {
        if users[i].pending_withdrawals > users[i].balance {
            assert(views[i as int].pending_withdrawals > views[i as int].balance);
            return false;
        }
        i = i + 1;
    }
    true
}

/// Whether the round is open: its pool is exact, it closes one round
/// duration after it opened, and it has no winner.
fn round_is_open(round: &Round) -> (r: bool)
    ensures
        r == round@.wf(),
{
    let stakes = round.participants.len();
    if round.winners.len() != 0 {
        return false;
    }
    if round.start_time > u64::MAX - ROUND_DURATION || round.end_time != round.start_time
        + ROUND_DURATION {
        return false;
    }
    if stakes as u64 > u64::MAX / TICKET_PRICE {
        return false;
    }
    round.prize_pool == TICKET_PRICE * (stakes as u64)
}

/// Whether every stake of the round belongs to an account.
fn stakes_have_accounts(state: &LotteryState) -> (r: bool)
    ensures
        r == (forall|k: int|
            0 <= k < state@.current_round.participants.len() ==> has_account(
                state@.users,
                #[trigger] state@.current_round.participants[k],
            )),
{
    let ghost stakes = state@.current_round.participants;
    let mut k: usize = 0;
    while k < state.current_round.participants.len()
        invariant
            k <= state.current_round.participants.len(),
            stakes == state@.current_round.participants,
            forall|j: int| 0 <= j < k ==> has_account(state@.users, #[trigger] stakes[j]),
        decreases state.current_round.participants.len() - k,
    {
        if !holds_account(&state.users, &state.current_round.participants[k]) {
            assert(!has_account(state@.users, stakes[k as int]));
            return false;
        }
        k = k + 1;
    }
    true
}

impl LotteryState {
    /// Checks the invariant of the store.
    pub fn is_well_formed(&self) -> (r: bool)
        ensures
            r == self.wf(),
    {
        identities_are_distinct(&self.users) && hashes_are_distinct(&self.ckbtc_deposits)
            && reservations_are_covered(&self.users) && round_is_open(&self.current_round)
            && stakes_have_accounts(self) && self.historical_winners.len() <= HISTORY_LIMIT
    }

    /// The store to go on with after a restart at `now`: what the
    /// checkpoint held where that is well formed, and otherwise a fresh
    /// store. Refused with `CapacityExceeded` only where a fresh store is
    /// needed and its first round's close time would not fit a `u64`.
    pub fn restore(checkpoint: LotteryState, now: u64) -> (r: Result<LotteryState, LotteryError>)
        ensures
            match r {
                Ok(state) => {
                    &&& state.wf()
                    &&& if checkpoint.wf() {
                        state == checkpoint
                    } else {
                        now + ROUND_DURATION <= u64::MAX && state@ == StateView::fresh(now)
                    }
                },
                Err(e) => {
                    &&& !checkpoint.wf()
                    &&& now + ROUND_DURATION > u64::MAX
                    &&& e == LotteryError::CapacityExceeded
                },
            },
    {
        if checkpoint.is_well_formed() {
            Ok(checkpoint)
        } else {
            LotteryState::new(now)
        }
    }
}

} // verus!
