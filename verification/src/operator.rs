//! The operator: the one identity that may ask for a draw, confirm
//! deposits, grant to the house accounts and point the treasury elsewhere.

use crate::error::LotteryError;
use crate::identity::{Account, Identity};
use crate::state::{LotteryState, StateView};
use vstd::prelude::*;

verus! {

/// The store after `caller` claimed the operator's role: the caller is the
/// operator where there was none, and otherwise nothing changed.
pub open spec fn after_claim(s: StateView, caller: Seq<u8>) -> StateView {
    if s.admin is None {
        StateView { admin: Some(caller), ..s }
    } else {
        s
    }
}

/// Claims the operator's role for `caller`. The first claim wins; every
/// later one changes nothing. Answers whether the claim was the first.
pub fn initialize_auth(state: &mut LotteryState, caller: Identity) -> (claimed: bool)
    requires
        old(state).wf(),
    ensures
        final(state).wf(),
        claimed == (old(state)@.admin is None),
        final(state)@ == after_claim(old(state)@, caller@),
{
    if state.admin.is_some() {
        return false;
    }
    state.admin = Some(caller);
    assert(state@ =~= after_claim(old(state)@, caller@));
    true
}

/// Points the treasury to `account`. Only the operator may do so.
pub fn set_treasury(state: &mut LotteryState, caller: &Identity, account: Account) -> (r: Result<
    (),
    LotteryError,
>)
    requires
        old(state).wf(),
    ensures
        final(state).wf(),
        if old(state)@.is_admin(caller@) {
            &&& r is Ok
            &&& final(state)@ == (StateView { treasury: Some(account@), ..old(state)@ })
        } else {
            &&& r == Err::<(), LotteryError>(LotteryError::Unauthorized)
            &&& final(state)@ == old(state)@
        },
{
    if !state.is_admin(caller) {
        return Err(LotteryError::Unauthorized);
    }
    state.treasury = Some(account);
    assert(state@ =~= (StateView { treasury: Some(account@), ..old(state)@ }));
    Ok(())
}

} // verus!
