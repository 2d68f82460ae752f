//! What holds of the lottery whatever is asked of it, stated over the
//! stores that the operations' contracts speak of.

use crate::account::{lemma_totals_push, recorded_deposits, swept_total, UserView};
use crate::consolidation::{
    after_consolidation, after_sweep, sweep_record, sweep_refusal, SweepLeg,
};
use crate::deposit::{after_record, has_deposit, record_refusal};
use crate::draw::{
    after_draw, draw_answer, draw_refusal, drawn, lemma_drawn_wf, lemma_winner_has_account,
    prize_for, winner_of,
};
use crate::error::LotteryError;
use crate::reconcile::{
    after_reading, after_reconciliation, confirmed_total, credit_record, reconciled,
    reconciliation_credit, reconciliation_refusal, ReadingView,
};
use crate::round::RoundView;
use crate::stake::{after_stake, lemma_staked_wf, stake_refusal};
use crate::state::{
    account_index, has_account, lemma_account_index, lemma_update_keeps_accounts, StateView,
};
use crate::withdrawal::{
    after_settlement, after_withdrawal_request, settlement_refusal, transferred,
};
use vstd::prelude::*;

verus! {

/// A report of a deposit: who reports, under which text form, how much and
/// when.
pub struct DepositReport {
    pub id: Seq<u8>,
    pub text: Seq<char>,
    pub amount: u64,
    pub now: u64,
}

/// A request to stake: who stakes, and when.
pub struct StakeRequest {
    pub id: Seq<u8>,
    pub now: u64,
}

/// The store after a sequence of stake requests, each answered in turn.
pub open spec fn after_stakes(s: StateView, requests: Seq<StakeRequest>) -> StateView
    decreases requests.len(),
{
    if requests.len() == 0 {
        s
    } else {
        let last = requests.last();
        after_stake(after_stakes(s, requests.drop_last()), last.id, last.now)
    }
}

/// Whatever stakes are asked for, in whatever order and whether they are
/// accepted or refused, the prize pool stays the ticket price times the
/// number of stakes in the round.
pub proof fn law_pool_is_exact_after_stakes(s: StateView, requests: Seq<StakeRequest>)
    requires
        s.current_round.pool_is_exact(),
    ensures
        after_stakes(s, requests).current_round.pool_is_exact(),
    decreases requests.len(),
{
    if requests.len() > 0 {
        law_pool_is_exact_after_stakes(s, requests.drop_last());
    }
}

/// What can be asked of a round: a stake, or a draw.
pub enum RoundEvent {
    Stake { id: Seq<u8>, now: u64 },
    Draw { now: u64, randomness: u64 },
}

/// The store after one event.
pub open spec fn after_event(s: StateView, event: RoundEvent) -> StateView {
    match event {
        RoundEvent::Stake { id, now } => after_stake(s, id, now),
        RoundEvent::Draw { now, randomness } => after_draw(s, now, randomness),
    }
}

/// The store after a sequence of events, each answered in turn.
pub open spec fn after_events(s: StateView, events: Seq<RoundEvent>) -> StateView
    decreases events.len(),
{
    if events.len() == 0 {
        s
    } else {
        after_event(after_events(s, events.drop_last()), events.last())
    }
}

/// Whatever stakes and draws are asked for, in whatever order, the store
/// stays well formed. In particular the prize pool is exact before every
/// draw, the round that is current has no winner, and every stake in it
/// belongs to an account.
pub proof fn law_round_invariant(s: StateView, events: Seq<RoundEvent>)
    requires
        s.wf(),
    ensures
        after_events(s, events).wf(),
        after_events(s, events).current_round.pool_is_exact(),
    decreases events.len(),
{
    if events.len() > 0 {
        law_round_invariant(s, events.drop_last());
        let before = after_events(s, events.drop_last());
        match events.last() {
            RoundEvent::Stake { id, now } => {
                if stake_refusal(before, id, now) is None {
                    lemma_staked_wf(before, id, now);
                }
            },
            RoundEvent::Draw { now, randomness } => {
                if before.current_round.due(now) && draw_refusal(before, now, randomness) is None {
                    lemma_drawn_wf(before, now, randomness);
                }
            },
        }
    }
}

/// The balances of all accounts together.
pub open spec fn total_balance(users: Seq<UserView>) -> int
    decreases users.len(),
{
    if users.len() == 0 {
        0
    } else {
        total_balance(users.drop_last()) + users.last().balance
    }
}

/// What the lottery owes: the balances of all accounts and the prize pool
/// of the current round.
pub open spec fn funds(s: StateView) -> int {
    total_balance(s.users) + s.current_round.prize_pool
}

/// Replacing an account changes the balances together by what the account's
/// balance changes by.
pub proof fn lemma_total_balance_update(users: Seq<UserView>, i: int, user: UserView)
    requires
        0 <= i < users.len(),
    ensures
        total_balance(users.update(i, user)) == total_balance(users) - users[i].balance
            + user.balance,
    decreases users.len(),
{
    let after = users.update(i, user);
    if i == users.len() - 1 {
        assert(after.drop_last() =~= users.drop_last());
    } else {
        lemma_total_balance_update(users.drop_last(), i, user);
        assert(after.drop_last() =~= users.drop_last().update(i, user));
    }
}

/// Rounds neither make nor lose funds. A stake moves the ticket price from
/// a balance into the prize pool, and a draw moves the prize pool to the
/// winner's balance; what the lottery owes stays the same, whatever stakes
/// and draws are asked for.
pub proof fn law_rounds_conserve_funds(s: StateView, events: Seq<RoundEvent>)
    requires
        s.wf(),
    ensures
        funds(after_events(s, events)) == funds(s),
    decreases events.len(),
{
    if events.len() > 0 {
        law_round_invariant(s, events.drop_last());
        law_rounds_conserve_funds(s, events.drop_last());
        let before = after_events(s, events.drop_last());
        match events.last() {
            RoundEvent::Stake { id, now } => {
                if stake_refusal(before, id, now) is None {
                    let i = account_index(before.users, id);
                    lemma_total_balance_update(
                        before.users,
                        i,
                        after_stake(before, id, now).users[i],
                    );
                }
            },
            RoundEvent::Draw { now, randomness } => {
                if before.current_round.due(now) && draw_refusal(before, now, randomness) is None
                    && before.current_round.participants.len() > 0 {
                    lemma_winner_has_account(before, randomness);
                    let winner = winner_of(before.current_round, randomness);
                    let w = account_index(before.users, winner);
                    lemma_total_balance_update(
                        before.users,
                        w,
                        drawn(before, now, randomness).users[w],
                    );
                }
            },
        }
    }
}

/// No round is drawn before its close time: a draw that is asked for
/// earlier answers nothing and changes nothing.
pub proof fn law_no_draw_before_close(s: StateView, now: u64, randomness: u64)
    requires
        now < s.current_round.end_time,
    ensures
        after_draw(s, now, randomness) == s,
        draw_answer(s, now, randomness) == Ok::<Option<RoundView>, LotteryError>(None),
{
}

/// A draw opens the round with the next identifier, without stakes.
pub proof fn law_draw_opens_next_round(s: StateView, now: u64, randomness: u64)
    requires
        draw_answer(s, now, randomness) matches Ok(Some(_)),
    ensures
        now >= s.current_round.end_time,
        after_draw(s, now, randomness).current_round.id == s.current_round.id + 1,
        after_draw(s, now, randomness).current_round.participants.len() == 0,
        after_draw(s, now, randomness).current_round.prize_pool == 0,
{
}

/// A draw pays the pool, and the round it opens is exact. Where a draw
/// happens, the round had its pool exact; the identity whose stake was
/// selected gets exactly that pool, and nobody else gets anything; and the
/// round that opens has no stakes, an empty pool and no winner, so that its
/// pool is exact as well.
pub proof fn law_draw_pays_the_pool(s: StateView, now: u64, randomness: u64)
    requires
        s.wf(),
        draw_answer(s, now, randomness) matches Ok(Some(_)),
    ensures
        ({
            let after = after_draw(s, now, randomness);
            &&& s.current_round.pool_is_exact()
            &&& after.wf()
            &&& after.current_round.participants.len() == 0
            &&& after.current_round.prize_pool == 0
            &&& after.current_round.winners.len() == 0
            &&& after.current_round.pool_is_exact()
            &&& after.users.len() == s.users.len()
            &&& forall|j: int|
                0 <= j < s.users.len() ==> (#[trigger] after.users[j]).balance == s.users[j].balance
                    + prize_for(s, randomness, j)
        }),
{
    lemma_drawn_wf(s, now, randomness);
}

/// A round is drawn once: after a draw, a second draw asked for at the same
/// time finds a round that is not due, and changes nothing.
pub proof fn law_one_draw_per_round(s: StateView, now: u64, first: u64, second: u64)
    requires
        draw_answer(s, now, first) matches Ok(Some(_)),
    ensures
        after_draw(after_draw(s, now, first), now, second) == after_draw(s, now, first),
        draw_answer(after_draw(s, now, first), now, second) == Ok::<
            Option<RoundView>,
            LotteryError,
        >(None),
{
}

/// What a reconciliation that credits leaves behind: the log covers the
/// whole confirmed total, so that against the same total nothing is left to
/// credit, at whatever time.
pub proof fn lemma_credit_covers_confirmed(
    s: StateView,
    id: Seq<u8>,
    confirmed: u128,
    first: u64,
    second: u64,
)
    requires
        s.wf(),
        has_account(s.users, id),
        reconciliation_refusal(s, id, confirmed, first) is None,
        reconciliation_credit(s.users[account_index(s.users, id)], confirmed, first) > 0,
    ensures
        ({
            let once = reconciled(s, id, confirmed, first);
            let i = account_index(s.users, id);
            &&& once.wf()
            &&& has_account(once.users, id)
            &&& account_index(once.users, id) == i
            &&& recorded_deposits(once.users[i].transaction_history) == confirmed
            &&& reconciliation_credit(once.users[i], confirmed, second) == 0
            &&& reconciliation_refusal(once, id, confirmed, second) is None
            &&& reconciled(once, id, confirmed, second) == once
        }),
{
    let once = reconciled(s, id, confirmed, first);
    let i = account_index(s.users, id);
    let user = s.users[i];
    let credit = reconciliation_credit(user, confirmed, first);
    assert(0 <= i < s.users.len() && s.users[i].identity == id);
    lemma_update_keeps_accounts(s.users, i, once.users[i]);
    lemma_account_index(once.users, id, i);
    lemma_totals_push(
        user.transaction_history,
        credit_record(user, credit as u64, first),
    );
}

/// Reconciliation is idempotent: where a reconciliation against a confirmed
/// total has changed anything, a second one against the same total, at
/// whatever time, changes nothing and credits nothing.
pub proof fn law_reconcile_is_idempotent(
    s: StateView,
    id: Seq<u8>,
    confirmed: u128,
    first: u64,
    second: u64,
)
    requires
        s.wf(),
    ensures
        ({
            let once = after_reconciliation(s, id, confirmed, first);
            let twice = after_reconciliation(once, id, confirmed, second);
            once != s ==> {
                &&& twice == once
                &&& reconciliation_refusal(once, id, confirmed, second) is None
                &&& reconciliation_credit(
                    once.users[account_index(once.users, id)],
                    confirmed,
                    second,
                ) == 0
            }
        }),
{
    let once = after_reconciliation(s, id, confirmed, first);
    if once != s {
        lemma_credit_covers_confirmed(s, id, confirmed, first, second);
    }
}

/// A reading is credited once: where handing in a reading has changed
/// anything, handing the same reading in again, at whatever time, changes
/// nothing.
pub proof fn law_reading_is_credited_once(
    s: StateView,
    reading: ReadingView,
    first: u64,
    second: u64,
)
    requires
        s.wf(),
    ensures
        ({
            let once = after_reading(s, reading, first);
            let twice = after_reading(once, reading, second);
            once != s ==> twice == once
        }),
{
    let once = after_reading(s, reading, first);
    if once != s {
        let confirmed = confirmed_total(reading) as u128;
        lemma_credit_covers_confirmed(s, reading.id, confirmed, first, second);
    }
}

/// Without a new deposit outside, two reconciliations in a row never credit
/// more than the confirmed total exceeds the recorded total by, however the
/// cool-down falls, and never lower a balance.
pub proof fn law_reconcile_never_credits_twice(
    s: StateView,
    id: Seq<u8>,
    confirmed: u128,
    first: u64,
    second: u64,
)
    requires
        s.wf(),
        has_account(s.users, id),
    ensures
        ({
            let i = account_index(s.users, id);
            let once = after_reconciliation(s, id, confirmed, first);
            let twice = after_reconciliation(once, id, confirmed, second);
            let recorded = recorded_deposits(s.users[i].transaction_history);
            &&& twice.users.len() == s.users.len()
            &&& twice.users[i].balance >= s.users[i].balance
            &&& twice.users[i].balance - s.users[i].balance <= if confirmed > recorded {
                confirmed - recorded
            } else {
                0
            }
        }),
{
    let i = account_index(s.users, id);
    assert(0 <= i < s.users.len() && s.users[i].identity == id);
    let once = after_reconciliation(s, id, confirmed, first);
    if once != s {
        lemma_credit_covers_confirmed(s, id, confirmed, first, second);
    }
}

/// An external deposit is credited once. Once a reference has a record, a
/// report under the same reference, by the same identity or another, for
/// the same amount or another, changes nothing: no balance, no counter and
/// no record.
pub proof fn law_deposit_is_credited_once(
    s: StateView,
    hash: Seq<char>,
    first: DepositReport,
    second: DepositReport,
)
    ensures
        ({
            let once = after_record(s, first.id, first.text, hash, first.amount, first.now);
            let twice = after_record(once, second.id, second.text, hash, second.amount, second.now);
            &&& has_deposit(s.ckbtc_deposits, hash) ==> once == s
            &&& once != s ==> has_deposit(once.ckbtc_deposits, hash)
            &&& once != s ==> twice == once
        }),
{
    let once = after_record(s, first.id, first.text, hash, first.amount, first.now);
    if record_refusal(s, first.id, hash, first.amount) is None {
        let k = s.ckbtc_deposits.len() as int;
        assert(once.ckbtc_deposits[k].tx_hash == hash);
    }
}

/// Funds that were swept stay confirmed. Where a consolidation transfer
/// yielded a reference, the address it took from holds less by what was
/// moved and the log records that much more as moved: a reading taken after
/// the transfer confirms the same total as one taken before it. A deposit
/// that arrives after a sweep therefore raises the confirmed total above the
/// recorded total, and is credited.
pub proof fn law_swept_funds_stay_confirmed(
    s: StateView,
    id: Seq<u8>,
    leg: SweepLeg,
    block: u64,
    now: u64,
    main_balance: u64,
    deposit_balance: u64,
)
    requires
        sweep_refusal(s, id, leg) is None,
        leg.pending(s.users[account_index(s.users, id)].pending_sweep) <= match leg {
            SweepLeg::Main => main_balance,
            SweepLeg::Deposit => deposit_balance,
        },
        swept_total(s.users[account_index(s.users, id)].transaction_history) <= u128::MAX,
        swept_total(
            after_sweep(s, id, leg, Some(block), now).users[account_index(
                s.users,
                id,
            )].transaction_history,
        ) <= u128::MAX,
    ensures
        ({
            let i = account_index(s.users, id);
            let moved = leg.pending(s.users[i].pending_sweep);
            let settled = after_sweep(s, id, leg, Some(block), now);
            let before = ReadingView {
                id,
                main_balance: Some(main_balance),
                deposit_balance: Some(deposit_balance),
                swept_before: swept_total(s.users[i].transaction_history) as u128,
            };
            let after = ReadingView {
                id,
                main_balance: Some(
                    match leg {
                        SweepLeg::Main => (main_balance - moved) as u64,
                        SweepLeg::Deposit => main_balance,
                    },
                ),
                deposit_balance: Some(
                    match leg {
                        SweepLeg::Main => deposit_balance,
                        SweepLeg::Deposit => (deposit_balance - moved) as u64,
                    },
                ),
                swept_before: swept_total(settled.users[i].transaction_history) as u128,
            };
            confirmed_total(after) == confirmed_total(before)
        }),
{
    law_sweep_records_what_was_transferred(s, id, leg, Some(block), now);
}

/// Consolidation never credits. Neither the step that plans the transfers
/// nor the step that settles one changes the balance of any account,
/// whatever was found at the custodial addresses and whether the transfer
/// yielded a reference or not.
pub proof fn law_consolidation_never_credits(
    s: StateView,
    id: Seq<u8>,
    main_balance: u64,
    deposit_balance: u64,
    leg: SweepLeg,
    reference: Option<u64>,
    now: u64,
)
    ensures
        ({
            let planned = after_consolidation(s, id, main_balance, deposit_balance);
            let settled = after_sweep(s, id, leg, reference, now);
            &&& planned.users.len() == s.users.len()
            &&& settled.users.len() == s.users.len()
            &&& forall|j: int|
                0 <= j < s.users.len() ==> (#[trigger] planned.users[j]).balance
                    == s.users[j].balance
            &&& forall|j: int|
                0 <= j < s.users.len() ==> (#[trigger] settled.users[j]).balance
                    == s.users[j].balance
        }),
{
    if has_account(s.users, id) {
        let i = account_index(s.users, id);
        assert(0 <= i < s.users.len() && s.users[i].identity == id);
    }
}

/// A settled consolidation transfer records as moved exactly what was
/// transferred: the amount that was under way where the transfer yielded a
/// reference, and nothing where it did not. What counts as a credited
/// deposit stays as it was.
pub proof fn law_sweep_records_what_was_transferred(
    s: StateView,
    id: Seq<u8>,
    leg: SweepLeg,
    reference: Option<u64>,
    now: u64,
)
    requires
        sweep_refusal(s, id, leg) is None,
    ensures
        ({
            let i = account_index(s.users, id);
            let settled = after_sweep(s, id, leg, reference, now);
            &&& swept_total(settled.users[i].transaction_history) == swept_total(
                s.users[i].transaction_history,
            ) + transferred(leg.pending(s.users[i].pending_sweep), reference)
            &&& recorded_deposits(settled.users[i].transaction_history) == recorded_deposits(
                s.users[i].transaction_history,
            )
            &&& leg.pending(settled.users[i].pending_sweep) == 0
        }),
{
    let i = account_index(s.users, id);
    assert(0 <= i < s.users.len() && s.users[i].identity == id);
    let user = s.users[i];
    match reference {
        Some(block) => {
            lemma_totals_push(
                user.transaction_history,
                sweep_record(user, leg, leg.pending(user.pending_sweep), block, now),
            );
        },
        None => {},
    }
}

/// A withdrawal never takes a balance below zero and never debits more than
/// was transferred. The request leaves every balance as it is. The
/// settlement debits the account by the amount where the transfer yielded a
/// reference, which the balance covers, and by nothing where it did not; it
/// leaves every other balance as it is.
pub proof fn law_withdrawal_debits_what_was_transferred(
    s: StateView,
    id: Seq<u8>,
    amount: u64,
    reference: Option<u64>,
    now: u64,
)
    requires
        s.wf(),
    ensures
        ({
            let requested = after_withdrawal_request(s, id, amount);
            let settled = after_settlement(s, id, amount, reference, now);
            &&& requested.users.len() == s.users.len()
            &&& settled.users.len() == s.users.len()
            &&& forall|j: int|
                0 <= j < s.users.len() ==> (#[trigger] requested.users[j]).balance
                    == s.users[j].balance
            &&& forall|j: int|
                0 <= j < s.users.len() ==> {
                    &&& s.users[j].balance - (#[trigger] settled.users[j]).balance >= 0
                    &&& s.users[j].balance - settled.users[j].balance <= transferred(
                        amount,
                        reference,
                    )
                }
            &&& settlement_refusal(s, id, amount) is None ==> settled.users[account_index(
                s.users,
                id,
            )].balance == s.users[account_index(s.users, id)].balance - transferred(
                amount,
                reference,
            )
        }),
{
    if has_account(s.users, id) {
        let i = account_index(s.users, id);
        assert(0 <= i < s.users.len() && s.users[i].identity == id);
    }
}

} // verus!
