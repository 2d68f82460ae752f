//! Aggregate statistics.

use vstd::prelude::*;

verus! {

/// Counters over the life of the lottery. They only grow, they stop at the
/// largest value a `u64` holds, and nothing is decided by them.
#[derive(Clone, Copy, Debug, PartialEq, Eq, Structural)]
pub struct SystemStats {
    pub total_rounds: u64,
    pub total_bets: u64,
    pub total_winnings: u64,
    pub active_users: u64,
    pub total_ckbtc_deposits: u64,
}

/// A counter after `by` was added to it.
pub open spec fn counted(counter: u64, by: u64) -> u64 {
    if counter + by > u64::MAX {
        u64::MAX
    } else {
        (counter + by) as u64
    }
}

impl Default for SystemStats {
    fn default() -> (r: Self)
        ensures
            r == SystemStats::zero(),
    {
        SystemStats {
            total_rounds: 0,
            total_bets: 0,
            total_winnings: 0,
            active_users: 0,
            total_ckbtc_deposits: 0,
        }
    }
}

impl SystemStats {
    /// The counters before anything has happened.
    pub open spec fn zero() -> SystemStats {
        SystemStats {
            total_rounds: 0,
            total_bets: 0,
            total_winnings: 0,
            active_users: 0,
            total_ckbtc_deposits: 0,
        }
    }
}

} // verus!
