//! A recurring lottery over an external token ledger: the round lifecycle,
//! the reconciliation of balances against externally confirmed deposits,
//! the consolidation of custodial funds into a treasury, and withdrawals.
//!
//! The library owns no clock, no randomness and no network. Every operation
//! takes the store by reference together with the values that the caller
//! obtained from outside (the time, a beacon value, a ledger reply), and
//! states in its contract how the store changes. An operation that needs the
//! ledger in the middle comes as two steps: one before the call, which hands
//! out the request to make, and one after it, which takes the reply.
//!
//! - [`state`] holds the store and its invariant, [`snapshot`] checks a
//!   store that comes back from a checkpoint.
//! - [`directory`] opens accounts, [`deposit`] records reported deposits.
//! - [`stake`] and [`draw`] run the rounds.
//! - [`reconcile`], [`consolidation`] and [`withdrawal`] keep the balances
//!   and the ledger in step.
//! - [`laws`] states what holds whatever is asked of the lottery.

pub mod account;
pub mod consolidation;
pub mod deposit;
pub mod directory;
pub mod draw;
pub mod error;
pub mod house;
pub mod identity;
pub mod laws;
pub mod ledger;
pub mod operator;
pub mod queries;
pub mod reconcile;
pub mod round;
pub mod snapshot;
pub mod stake;
pub mod state;
pub mod stats;
pub mod subaccount;
pub mod withdrawal;
