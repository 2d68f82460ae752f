//! Placing a stake in the current round.

use crate::account::{
    lemma_log_view_push, Transaction, TransactionKind, TransactionView, UserView,
};
use crate::error::LotteryError;
use crate::identity::{principal_of_text, Identity};
use crate::round::{identity_views, RoundView, TICKET_PRICE};
use crate::state::{
    account_index, has_account, lemma_update_keeps_accounts, LotteryState, StateView,
};
use crate::stats::{counted, SystemStats};
use vstd::prelude::*;

verus! {

/// Why a stake is refused, if it is. In this order: the identity has no
/// account; the round is past its close time and awaits its draw; the
/// account has less than the ticket price available; the prize pool would no
/// longer fit a `u64`.
pub open spec fn stake_refusal(s: StateView, id: Seq<u8>, now: u64) -> Option<LotteryError> {
    if !has_account(s.users, id) {
        Some(LotteryError::AccountNotFound)
    } else if s.current_round.due(now) {
        Some(LotteryError::RoundClosed)
    } else if s.users[account_index(s.users, id)].available() < TICKET_PRICE {
        Some(LotteryError::InsufficientBalance)
    } else if s.current_round.prize_pool + TICKET_PRICE > u64::MAX {
        Some(LotteryError::CapacityExceeded)
    } else {
        None
    }
}

/// The record of a stake placed from the account `user`.
pub open spec fn bet_record(user: UserView, now: u64) -> TransactionView {
    TransactionView {
        amount: TICKET_PRICE,
        timestamp: now,
        transaction_type: TransactionKind::Bet,
        tx_hash: None,
        ckbtc_address: Some(user.deposit_account),
    }
}

/// The store after the identity has staked: the ticket price has moved from
/// its balance to the prize pool, the identity is appended to the stakes of
/// the round, and the stake is recorded and counted.
pub open spec fn staked(s: StateView, id: Seq<u8>, now: u64) -> StateView {
    let i = account_index(s.users, id);
    let user = s.users[i];
    StateView {
        users: s.users.update(
            i,
            UserView {
                balance: (user.balance - TICKET_PRICE) as u64,
                transaction_history: user.transaction_history.push(bet_record(user, now)),
                ..user
            },
        ),
        current_round: RoundView {
            participants: s.current_round.participants.push(id),
            prize_pool: (s.current_round.prize_pool + TICKET_PRICE) as u64,
            ..s.current_round
        },
        stats: SystemStats { total_bets: counted(s.stats.total_bets, 1), ..s.stats },
        ..s
    }
}

/// The store after a stake was asked for: staked where the stake is not
/// refused, and otherwise as it was.
pub open spec fn after_stake(s: StateView, id: Seq<u8>, now: u64) -> StateView {
    if stake_refusal(s, id, now) is None {
        staked(s, id, now)
    } else {
        s
    }
}

/// What asking for a stake answers: the refusal where there is one.
pub open spec fn stake_answer(s: StateView, id: Seq<u8>, now: u64) -> Result<(), LotteryError> {
    match stake_refusal(s, id, now) {
        Some(e) => Err(e),
        None => Ok(()),
    }
}

/// The store after each of the identities asked for one stake at `now`, in
/// order.
pub open spec fn after_stakes_of(s: StateView, ids: Seq<Seq<u8>>, now: u64) -> StateView
    decreases ids.len(),
{
    if ids.len() == 0 {
        s
    } else {
        after_stake(after_stakes_of(s, ids.drop_last(), now), ids.last(), now)
    }
}

/// A stake leaves the store well formed.
pub proof fn lemma_staked_wf(s: StateView, id: Seq<u8>, now: u64)
    requires
        s.wf(),
        stake_refusal(s, id, now) is None,
    ensures
        staked(s, id, now).wf(),
{
    let after = staked(s, id, now);
    let i = account_index(s.users, id);
    lemma_update_keeps_accounts(s.users, i, after.users[i]);
    assert forall|k: int| 0 <= k < after.current_round.participants.len() implies has_account(
        after.users,
        #[trigger] after.current_round.participants[k],
    ) by {
        if k < s.current_round.participants.len() {
            assert(has_account(s.users, s.current_round.participants[k]));
        }
    }
}

/// Places one stake for `identity` in the current round at `now`.
///
/// A stake that is refused changes nothing. A stake is refused from the
/// round's close time on, so that no stake enters a round between its close
/// time and its draw. What a stake is paid from is what the account has
/// available: its balance without what withdrawals under way have reserved,
/// which is the whole balance where none is under way.
pub fn place_stake(state: &mut LotteryState, identity: &Identity, now: u64) -> (r: Result<
    (),
    LotteryError,
>)
    requires
        old(state).wf(),
    ensures
        final(state).wf(),
        final(state)@ == after_stake(old(state)@, identity@, now),
        r == stake_answer(old(state)@, identity@, now),
        final(state)@.current_round.pool_is_exact(),
{
    let i = match state.find_user(identity) {
        Some(i) => i,
        None => {
            return Err(LotteryError::AccountNotFound);
        },
    };
    if now >= state.current_round.end_time {
        return Err(LotteryError::RoundClosed);
    }
    if state.users[i].balance - state.users[i].pending_withdrawals < TICKET_PRICE {
        return Err(LotteryError::InsufficientBalance);
    }
    let pool = match state.current_round.prize_pool.checked_add(TICKET_PRICE) {
        Some(pool) => pool,
        None => {
            return Err(LotteryError::CapacityExceeded);
        },
    };
    let ghost before = state@;
    let ghost after = staked(before, identity@, now);
    let record = Transaction {
        amount: TICKET_PRICE,
        timestamp: now,
        transaction_type: TransactionKind::Bet,
        tx_hash: None,
        ckbtc_address: Some(state.users[i].deposit_account.clone()),
    };
    proof {
        assert(record@ == bet_record(before.users[i as int], now));
        lemma_log_view_push(state.users[i as int].transaction_history@, record);
    }
    state.users[i].balance = state.users[i].balance - TICKET_PRICE;
    state.users[i].transaction_history.push(record);
    let ghost stakes = identity_views(state.current_round.participants@);
    state.current_round.participants.push(identity.clone());
    state.current_round.prize_pool = pool;
    state.stats.total_bets = state.stats.total_bets.saturating_add(1);
    proof {
        assert(identity_views(state.current_round.participants@) =~= stakes.push(identity@));
        assert(state@.users =~= after.users);
        assert(state@ =~= after);
        lemma_staked_wf(before, identity@, now);
    }
    Ok(())
}

/// Places one stake for the identity that `principal` spells.
///
/// A text that is no principal is refused with `ValidationError`. Otherwise
/// this is [`place_stake`] for the identity that the text stands for.
pub fn place_bet(state: &mut LotteryState, principal: &str, now: u64) -> (r: Result<
    (),
    LotteryError,
>)
    requires
        old(state).wf(),
    ensures
        final(state).wf(),
        match principal_of_text(principal@) {
            Some(id) => {
                &&& final(state)@ == after_stake(old(state)@, id, now)
                &&& r == stake_answer(old(state)@, id, now)
            },
            None => {
                &&& final(state)@ == old(state)@
                &&& r == Err::<(), LotteryError>(LotteryError::ValidationError)
            },
        },
        final(state)@.current_round.pool_is_exact(),
{
    let identity = match Identity::from_text(principal) {
        Ok(identity) => identity,
        Err(e) => {
            return Err(e);
        },
    };
    place_stake(state, &identity, now)
}

} // verus!
