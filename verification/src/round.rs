//! Rounds and the record of past winners.

use crate::identity::Identity;
use vstd::prelude::*;

verus! {

/// The fixed stake that enters an identity into a round once.
pub const TICKET_PRICE: u64 = 1;

/// The time a round stays open (nanoseconds).
pub const ROUND_DURATION: u64 = 300_000_000_000;

/// The number of past winners that are remembered.
pub const HISTORY_LIMIT: usize = 10;

/// The views of a list of identities, in order.
pub open spec fn identity_views(ids: Seq<Identity>) -> Seq<Seq<u8>> {
    ids.map_values(|id: Identity| id@)
}

/// Copies a list of identities.
pub fn clone_identities(ids: &Vec<Identity>) -> (r: Vec<Identity>)
    ensures
        identity_views(r@) == identity_views(ids@),
{
    let mut out: Vec<Identity> = Vec::new();
    let mut i: usize = 0;
    while i < ids.len()
        invariant
            i <= ids.len(),
            out@.len() == i,
            forall|j: int| 0 <= j < i ==> (#[trigger] out@[j])@ == ids@[j]@,
        decreases ids.len() - i,
    {
        out.push(ids[i].clone());
        i = i + 1;
    }
    assert(identity_views(out@) =~= identity_views(ids@));
    out
}

/// One round of the lottery.
#[derive(Debug, PartialEq, Eq)]
pub struct Round {
    pub id: u64,
    /// One entry per stake, in the order the stakes were placed. An identity
    /// that staked several times occurs several times.
    pub participants: Vec<Identity>,
    pub prize_pool: u64,
    pub start_time: u64,
    pub end_time: u64,
    /// Empty while the round is open; the winner once it has been drawn.
    pub winners: Vec<Identity>,
}

/// What a [`Round`] holds.
#[verifier::ext_equal]
pub struct RoundView {
    pub id: u64,
    pub participants: Seq<Seq<u8>>,
    pub prize_pool: u64,
    pub start_time: u64,
    pub end_time: u64,
    pub winners: Seq<Seq<u8>>,
}

impl View for Round {
    type V = RoundView;

    open spec fn view(&self) -> RoundView {
        RoundView {
            id: self.id,
            participants: identity_views(self.participants@),
            prize_pool: self.prize_pool,
            start_time: self.start_time,
            end_time: self.end_time,
            winners: identity_views(self.winners@),
        }
    }
}

impl Clone for Round {
    fn clone(&self) -> (r: Self)
        ensures
            r@ == self@,
    {
        Round {
            id: self.id,
            participants: clone_identities(&self.participants),
            prize_pool: self.prize_pool,
            start_time: self.start_time,
            end_time: self.end_time,
            winners: clone_identities(&self.winners),
        }
    }
}

impl RoundView {
    /// The round with identifier `id` as it opens at `now`: no stakes, an
    /// empty pool, no winner, and a close time one round duration later.
    pub open spec fn opening(id: u64, now: u64) -> RoundView
        recommends
            now + ROUND_DURATION <= u64::MAX,
    {
        RoundView {
            id,
            participants: Seq::empty(),
            prize_pool: 0,
            start_time: now,
            end_time: (now + ROUND_DURATION) as u64,
            winners: Seq::empty(),
        }
    }

    /// Whether the prize pool is the ticket price times the number of
    /// stakes.
    pub open spec fn pool_is_exact(self) -> bool {
        self.prize_pool == TICKET_PRICE * self.participants.len()
    }

    /// An open round: its pool is exact, it closes one round duration after
    /// it opened, and no winner has been set.
    pub open spec fn wf(self) -> bool {
        &&& self.pool_is_exact()
        &&& self.end_time == self.start_time + ROUND_DURATION
        &&& self.winners.len() == 0
    }

    /// Whether the round is due for its draw at `now`.
    pub open spec fn due(self, now: u64) -> bool {
        now >= self.end_time
    }
}

impl Round {
    /// Opens the round with identifier `id` at `now`.
    pub fn open(id: u64, now: u64) -> (r: Round)
        requires
            now + ROUND_DURATION <= u64::MAX,
        ensures
            r@ == RoundView::opening(id, now),
            r@.wf(),
    {
        let r = Round {
            id,
            participants: Vec::new(),
            prize_pool: 0,
            start_time: now,
            end_time: now + ROUND_DURATION,
            winners: Vec::new(),
        };
        assert(r@ =~= RoundView::opening(id, now));
        r
    }
}

/// A past winner, as it is remembered.
#[derive(Debug, PartialEq, Eq)]
pub struct HistoricalWinner {
    pub winner_principal: String,
    pub amount: u64,
    pub timestamp: u64,
    pub round_id: u64,
}

/// What a [`HistoricalWinner`] holds.
#[verifier::ext_equal]
pub struct HistoricalWinnerView {
    pub winner_principal: Seq<char>,
    pub amount: u64,
    pub timestamp: u64,
    pub round_id: u64,
}

impl View for HistoricalWinner {
    type V = HistoricalWinnerView;

    open spec fn view(&self) -> HistoricalWinnerView {
        HistoricalWinnerView {
            winner_principal: self.winner_principal@,
            amount: self.amount,
            timestamp: self.timestamp,
            round_id: self.round_id,
        }
    }
}

impl Clone for HistoricalWinner {
    fn clone(&self) -> (r: Self)
        ensures
            r@ == self@,
    {
        HistoricalWinner {
            winner_principal: self.winner_principal.clone(),
            amount: self.amount,
            timestamp: self.timestamp,
            round_id: self.round_id,
        }
    }
}

/// The views of the remembered winners, in order.
pub open spec fn history_view(history: Seq<HistoricalWinner>) -> Seq<HistoricalWinnerView> {
    history.map_values(|w: HistoricalWinner| w@)
}

} // verus!
