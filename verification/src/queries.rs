//! Read-only views of the store.

use crate::round::{history_view, HistoricalWinner, Round};
use crate::state::LotteryState;
use crate::stats::SystemStats;
use vstd::prelude::*;

verus! {

/// The ledger that the lottery's funds are held on.
pub const CKBTC_CANISTER_ID: &'static str = "mxzaz-hqaaa-aaaar-qaada-cai";

/// The current round.
pub fn get_round(state: &LotteryState) -> (r: Round)
    ensures
        r@ == state@.current_round,
{
    state.current_round.clone()
}

/// The counters.
pub fn get_stats(state: &LotteryState) -> (r: SystemStats)
    ensures
        r == state@.stats,
{
    state.stats
}

/// The remembered winners, oldest first.
pub fn get_historical_winners(state: &LotteryState) -> (r: Vec<HistoricalWinner>)
    ensures
        history_view(r@) == state@.historical_winners,
{
    let mut out: Vec<HistoricalWinner> = Vec::new();
    let mut i: usize = 0;
    while i < state.historical_winners.len()
        invariant
            i <= state.historical_winners.len(),
            out@.len() == i,
            forall|j: int| 0 <= j < i ==> (#[trigger] out@[j])@ == state.historical_winners@[j]@,
        decreases state.historical_winners.len() - i,
    {
        out.push(state.historical_winners[i].clone());
        i = i + 1;
    }
    assert(history_view(out@) =~= state@.historical_winners);
    out
}

/// The text form of the identity of the ledger.
pub fn get_ckbtc_canister_id() -> (r: &'static str)
    ensures
        r@ == CKBTC_CANISTER_ID@,
{
    CKBTC_CANISTER_ID
}

} // verus!
