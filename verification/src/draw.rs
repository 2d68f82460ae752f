//! The round lifecycle: drawing the winner of a round that is due and
//! opening the next round, as one step.
//!
//! The winner is the stake at the place `randomness` modulo the number of
//! stakes, so an identity that staked several times wins in proportion.
//! Whoever can predict or choose `randomness` can choose the winner. The
//! fairness of the lottery therefore rests on the caller handing in a value
//! that nobody could know when the last stake was placed, such as the output
//! of a random beacon or of a commit-reveal round. A time stamp is no such
//! value.

use crate::account::{
    lemma_log_view_push, Transaction, TransactionKind, TransactionView, UserView, Winning,
};
use crate::error::LotteryError;
use crate::identity::Identity;
use crate::round::{
    history_view, identity_views, HistoricalWinner, HistoricalWinnerView, Round, RoundView,
    HISTORY_LIMIT, ROUND_DURATION,
};
use crate::state::{
    account_index, has_account, lemma_update_keeps_accounts, LotteryState, StateView,
};
use crate::stats::{counted, SystemStats};
use vstd::prelude::*;

verus! {

/// The number that the first eight bytes of a beacon's output spell, the
/// lowest byte first.
pub open spec fn beacon_number(bytes: Seq<u8>) -> int
    recommends
        bytes.len() >= 8,
{
    bytes[0] + bytes[1] * 0x100 + bytes[2] * 0x1_0000 + bytes[3] * 0x100_0000 + bytes[4]
        * 0x1_0000_0000 + bytes[5] * 0x100_0000_0000 + bytes[6] * 0x1_0000_0000_0000 + bytes[7]
        * 0x100_0000_0000_0000
}

/// The randomness that a beacon's output gives; `None` where the output is
/// shorter than eight bytes.
pub fn beacon_value(bytes: &Vec<u8>) -> (r: Option<u64>)
    ensures
        match r {
            Some(value) => bytes@.len() >= 8 && value == beacon_number(bytes@),
            None => bytes@.len() < 8,
        },
{
    if bytes.len() < 8 {
        return None;
    }
    let low: u64 = bytes[0] as u64 + bytes[1] as u64 * 0x100 + bytes[2] as u64 * 0x1_0000
        + bytes[3] as u64 * 0x100_0000;
    let high: u64 = bytes[4] as u64 + bytes[5] as u64 * 0x100 + bytes[6] as u64 * 0x1_0000
        + bytes[7] as u64 * 0x100_0000;
    Some(low + high * 0x1_0000_0000)
}

/// The place, among `stakes` stakes, of the one that `randomness` selects.
pub open spec fn winning_index(randomness: u64, stakes: nat) -> int
    recommends
        stakes > 0,
{
    randomness as int % stakes as int
}

/// The identity whose stake `randomness` selects in a round with stakes.
pub open spec fn winner_of(round: RoundView, randomness: u64) -> Seq<u8>
    recommends
        round.participants.len() > 0,
{
    round.participants[winning_index(randomness, round.participants.len())]
}

/// The round as it is closed: with its winner set where it had stakes, and
/// otherwise as it was.
pub open spec fn closed_round(round: RoundView, randomness: u64) -> RoundView {
    if round.participants.len() == 0 {
        round
    } else {
        RoundView { winners: seq![winner_of(round, randomness)], ..round }
    }
}

/// The record of a prize credited to the winner.
pub open spec fn win_record(prize: u64, now: u64) -> TransactionView {
    TransactionView {
        amount: prize,
        timestamp: now,
        transaction_type: TransactionKind::Win,
        tx_hash: None,
        ckbtc_address: None,
    }
}

/// The remembered winners after one more was appended: the most recent
/// `HISTORY_LIMIT` of them.
pub open spec fn remembered(history: Seq<HistoricalWinnerView>) -> Seq<HistoricalWinnerView> {
    if history.len() > HISTORY_LIMIT {
        history.drop_first()
    } else {
        history
    }
}

/// Why the draw of a due round is refused, if it is: the next round's
/// identifier or close time, or the winner's balance with the prize, would
/// not fit a `u64`.
pub open spec fn draw_refusal(s: StateView, now: u64, randomness: u64) -> Option<LotteryError> {
    let round = s.current_round;
    if round.id + 1 > u64::MAX || now + ROUND_DURATION > u64::MAX {
        Some(LotteryError::CapacityExceeded)
    } else if round.participants.len() > 0 && s.users[account_index(
        s.users,
        winner_of(round, randomness),
    )].balance + round.prize_pool > u64::MAX {
        Some(LotteryError::CapacityExceeded)
    } else {
        None
    }
}

/// The store after the current round was drawn at `now` with `randomness`.
///
/// A round without stakes pays nothing. Otherwise the whole prize pool goes
/// to the balance of the selected identity, with a `Win` record, an entry in
/// its winnings and an entry among the remembered winners. Either way the
/// round is counted, and the round with the next identifier opens at `now`,
/// without stakes.
pub open spec fn drawn(s: StateView, now: u64, randomness: u64) -> StateView {
    let round = s.current_round;
    let next = RoundView::opening((round.id + 1) as u64, now);
    if round.participants.len() == 0 {
        StateView {
            current_round: next,
            stats: SystemStats { total_rounds: counted(s.stats.total_rounds, 1), ..s.stats },
            ..s
        }
    } else {
        let w = account_index(s.users, winner_of(round, randomness));
        let user = s.users[w];
        let prize = round.prize_pool;
        StateView {
            users: s.users.update(
                w,
                UserView {
                    balance: (user.balance + prize) as u64,
                    transaction_history: user.transaction_history.push(win_record(prize, now)),
                    winning_history: user.winning_history.push(
                        Winning { amount: prize, timestamp: now, round_id: round.id },
                    ),
                    ..user
                },
            ),
            current_round: next,
            stats: SystemStats {
                total_rounds: counted(s.stats.total_rounds, 1),
                total_winnings: counted(s.stats.total_winnings, prize),
                ..s.stats
            },
            historical_winners: remembered(
                s.historical_winners.push(
                    HistoricalWinnerView {
                        winner_principal: user.principal_text,
                        amount: prize,
                        timestamp: now,
                        round_id: round.id,
                    },
                ),
            ),
            ..s
        }
    }
}

/// What the draw of the current round pays to the account at place `j`: the
/// whole prize pool to the account of the identity whose stake `randomness`
/// selects, and nothing to any other.
pub open spec fn prize_for(s: StateView, randomness: u64, j: int) -> int {
    if s.current_round.participants.len() > 0 && j == account_index(
        s.users,
        winner_of(s.current_round, randomness),
    ) {
        s.current_round.prize_pool as int
    } else {
        0
    }
}

/// The store after a draw was asked for at `now`: drawn where the round is
/// due and the draw is not refused, and otherwise as it was.
pub open spec fn after_draw(s: StateView, now: u64, randomness: u64) -> StateView {
    if s.current_round.due(now) && draw_refusal(s, now, randomness) is None {
        drawn(s, now, randomness)
    } else {
        s
    }
}

/// What asking for a draw at `now` answers: nothing where the round is not
/// due, the refusal where there is one, and otherwise the round as it was
/// closed.
pub open spec fn draw_answer(s: StateView, now: u64, randomness: u64) -> Result<
    Option<RoundView>,
    LotteryError,
> {
    if !s.current_round.due(now) {
        Ok(None)
    } else {
        match draw_refusal(s, now, randomness) {
            Some(e) => Err(e),
            None => Ok(Some(closed_round(s.current_round, randomness))),
        }
    }
}

/// The view of the answer to a draw.
pub open spec fn answer_view(answer: Result<Option<Round>, LotteryError>) -> Result<
    Option<RoundView>,
    LotteryError,
> {
    match answer {
        Ok(Some(round)) => Ok(Some(round@)),
        Ok(None) => Ok(None),
        Err(e) => Err(e),
    }
}

/// In a round with stakes, whatever the randomness, the stake it selects is
/// one of the round's, and the identity that placed it has an account.
pub proof fn lemma_winner_has_account(s: StateView, randomness: u64)
    requires
        s.wf(),
        s.current_round.participants.len() > 0,
    ensures
        0 <= winning_index(randomness, s.current_round.participants.len())
            < s.current_round.participants.len(),
        has_account(s.users, winner_of(s.current_round, randomness)),
        0 <= account_index(s.users, winner_of(s.current_round, randomness)) < s.users.len(),
        s.users[account_index(s.users, winner_of(s.current_round, randomness))].identity
            == winner_of(s.current_round, randomness),
{
    let stakes = s.current_round.participants;
    let k = winning_index(randomness, stakes.len());
    assert(0 <= k < stakes.len()) by (nonlinear_arith)
        requires
            k == randomness as int % stakes.len() as int,
            stakes.len() > 0,
            randomness >= 0,
    ;
    assert(has_account(s.users, stakes[k]));
}

/// What a draw does. The store stays well formed. The round that opens has
/// the next identifier, no stakes, an empty and therefore exact pool, and
/// no winner. Where the drawn round had stakes, the winner's balance grows
/// by exactly the prize pool, and no other balance changes; where it had
/// none, no balance changes.
pub proof fn lemma_drawn_wf(s: StateView, now: u64, randomness: u64)
    requires
        s.wf(),
        draw_refusal(s, now, randomness) is None,
    ensures
        drawn(s, now, randomness).wf(),
        drawn(s, now, randomness).current_round.id == s.current_round.id + 1,
        drawn(s, now, randomness).current_round.participants.len() == 0,
        drawn(s, now, randomness).current_round.prize_pool == 0,
        drawn(s, now, randomness).current_round.winners.len() == 0,
        drawn(s, now, randomness).current_round.pool_is_exact(),
        drawn(s, now, randomness).users.len() == s.users.len(),
        forall|j: int|
            0 <= j < s.users.len() ==> (#[trigger] drawn(s, now, randomness).users[j]).balance
                == s.users[j].balance + prize_for(s, randomness, j),
{
    let after = drawn(s, now, randomness);
    if s.current_round.participants.len() > 0 {
        lemma_winner_has_account(s, randomness);
        let w = account_index(s.users, winner_of(s.current_round, randomness));
        lemma_update_keeps_accounts(s.users, w, after.users[w]);
    }
}

/// Draws the round, which is due, and opens the next one.
pub(crate) fn auto_draw_winner(state: &mut LotteryState, now: u64, randomness: u64) -> (r: Result<
    Round,
    LotteryError,
>)
    requires
        old(state).wf(),
        old(state)@.current_round.due(now),
    ensures
        final(state).wf(),
        final(state)@ == after_draw(old(state)@, now, randomness),
        match r {
            Ok(closed) => draw_refusal(old(state)@, now, randomness) is None && closed@
                == closed_round(old(state)@.current_round, randomness),
            Err(e) => draw_refusal(old(state)@, now, randomness) == Some(e),
        },
        r is Ok ==> {
            &&& final(state)@.current_round.id == old(state)@.current_round.id + 1
            &&& final(state)@.current_round.participants.len() == 0
            &&& final(state)@.current_round.prize_pool == 0
            &&& final(state)@.current_round.winners.len() == 0
            &&& final(state)@.current_round.pool_is_exact()
            &&& final(state)@.users.len() == old(state)@.users.len()
            &&& forall|j: int|
                0 <= j < old(state)@.users.len() ==> (#[trigger] final(state)@.users[j]).balance
                    == old(state)@.users[j].balance + prize_for(old(state)@, randomness, j)
        },
{
    if state.current_round.id == u64::MAX || now > u64::MAX - ROUND_DURATION {
        return Err(LotteryError::CapacityExceeded);
    }
    let ghost before = state@;
    let ghost after = drawn(before, now, randomness);
    let stakes = state.current_round.participants.len();
    let prize = state.current_round.prize_pool;
    let round_id = state.current_round.id;
    if stakes == 0 {
        let mut closed = Round::open(round_id + 1, now);
        std::mem::swap(&mut state.current_round, &mut closed);
        state.stats.total_rounds = state.stats.total_rounds.saturating_add(1);
        proof {
            assert(state@ =~= after);
            lemma_drawn_wf(before, now, randomness);
        }
        return Ok(closed);
    }
    let k = (randomness % (stakes as u64)) as usize;
    proof {
        lemma_winner_has_account(before, randomness);
        assert(k as int == winning_index(randomness, stakes as nat));
        assert(before.current_round.participants[k as int]
            == state.current_round.participants[k as int]@);
    }
    let w = match state.find_user(&state.current_round.participants[k]) {
        Some(w) => w,
        // Every stake belongs to an account.
        None => unreached(),
    };
    let balance = match state.users[w].balance.checked_add(prize) {
        Some(balance) => balance,
        None => {
            return Err(LotteryError::CapacityExceeded);
        },
    };
    let ghost user = before.users[w as int];
    let winner = state.current_round.participants[k].clone();
    let record = Transaction {
        amount: prize,
        timestamp: now,
        transaction_type: TransactionKind::Win,
        tx_hash: None,
        ckbtc_address: None,
    };
    proof {
        assert(record@ == win_record(prize, now));
        lemma_log_view_push(state.users[w as int].transaction_history@, record);
    }
    state.users[w].balance = balance;
    state.users[w].transaction_history.push(record);
    state.users[w].winning_history.push(Winning { amount: prize, timestamp: now, round_id });
    state.stats.total_rounds = state.stats.total_rounds.saturating_add(1);
    state.stats.total_winnings = state.stats.total_winnings.saturating_add(prize);
    let entry = HistoricalWinner {
        winner_principal: state.users[w].principal_text.clone(),
        amount: prize,
        timestamp: now,
        round_id,
    };
    let ghost pushed = history_view(state.historical_winners@).push(entry@);
    state.historical_winners.push(entry);
    proof {
        assert(history_view(state.historical_winners@) =~= pushed);
    }
    if state.historical_winners.len() > HISTORY_LIMIT {
        state.historical_winners.remove(0);
        proof {
            assert(history_view(state.historical_winners@) =~= pushed.drop_first());
        }
    }
    let mut closed = Round::open(round_id + 1, now);
    std::mem::swap(&mut state.current_round, &mut closed);
    let mut winners: Vec<Identity> = Vec::new();
    winners.push(winner);
    closed.winners = winners;
    proof {
        assert(identity_views(closed.winners@) =~= seq![
            winner_of(before.current_round, randomness),
        ]);
        assert(closed@ =~= closed_round(before.current_round, randomness));
        assert(state@.users =~= after.users);
        assert(state@ =~= after);
        lemma_drawn_wf(before, now, randomness);
    }
    Ok(closed)
}

/// Draws the current round if it is due at `now`.
///
/// Before the round's close time nothing happens and `None` is answered, so
/// that a round is drawn at most once: the round that a draw opens is not
/// due at the time of that draw. A round that is due is drawn with
/// `randomness` (see the note on fairness above) and handed back as it was
/// closed; the store then holds the next round.
pub fn check_and_auto_draw(state: &mut LotteryState, now: u64, randomness: u64) -> (r: Result<
    Option<Round>,
    LotteryError,
>)
    requires
        old(state).wf(),
    ensures
        final(state).wf(),
        final(state)@ == after_draw(old(state)@, now, randomness),
        answer_view(r) == draw_answer(old(state)@, now, randomness),
        r matches Ok(None) <==> now < old(state)@.current_round.end_time,
        r matches Ok(Some(_)) ==> {
            &&& final(state)@.current_round.id == old(state)@.current_round.id + 1
            &&& final(state)@.current_round.participants.len() == 0
            &&& final(state)@.current_round.prize_pool == 0
            &&& final(state)@.current_round.winners.len() == 0
            &&& final(state)@.users.len() == old(state)@.users.len()
            &&& forall|j: int|
                0 <= j < old(state)@.users.len() ==> (#[trigger] final(state)@.users[j]).balance
                    == old(state)@.users[j].balance + prize_for(old(state)@, randomness, j)
        },
        final(state)@.current_round.pool_is_exact(),
{
    if now < state.current_round.end_time {
        return Ok(None);
    }
    proof {
        if draw_refusal(state@, now, randomness) is None {
            lemma_drawn_wf(state@, now, randomness);
        }
    }
    match auto_draw_winner(state, now, randomness) {
        Ok(closed) => Ok(Some(closed)),
        Err(e) => Err(e),
    }
}

/// A draw that the operator asks for. It is the same routine as the
/// scheduled draw: a round that is not due is left alone.
pub fn trigger_draw(
    state: &mut LotteryState,
    caller: &Identity,
    now: u64,
    randomness: u64,
) -> (r: Result<Option<Round>, LotteryError>)
    requires
        old(state).wf(),
    ensures
        final(state).wf(),
        if old(state)@.is_admin(caller@) {
            &&& final(state)@ == after_draw(old(state)@, now, randomness)
            &&& answer_view(r) == draw_answer(old(state)@, now, randomness)
        } else {
            &&& final(state)@ == old(state)@
            &&& r == Err::<Option<Round>, LotteryError>(LotteryError::Unauthorized)
        },
        r matches Ok(Some(_)) ==> {
            &&& now >= old(state)@.current_round.end_time
            &&& final(state)@.current_round.id == old(state)@.current_round.id + 1
            &&& final(state)@.current_round.participants.len() == 0
            &&& final(state)@.current_round.prize_pool == 0
            &&& final(state)@.current_round.winners.len() == 0
            &&& final(state)@.users.len() == old(state)@.users.len()
            &&& forall|j: int|
                0 <= j < old(state)@.users.len() ==> (#[trigger] final(state)@.users[j]).balance
                    == old(state)@.users[j].balance + prize_for(old(state)@, randomness, j)
        },
        final(state)@.current_round.pool_is_exact(),
{
    if !state.is_admin(caller) {
        return Err(LotteryError::Unauthorized);
    }
    check_and_auto_draw(state, now, randomness)
}

} // verus!
