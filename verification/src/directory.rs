//! The account directory: opening accounts and looking them up.
//!
//! An account is opened on the first request that names its identity and is
//! never closed.

use crate::account::{PendingSweep, User, UserView};
use crate::error::LotteryError;
use crate::identity::{
    principal_of_text, text_of_principal, Account, AccountView, Identity, MAX_IDENTITY_BYTES,
};
use crate::state::{
    account_index, distinct_identities, has_account, lemma_account_index, LotteryState, StateView,
};
use crate::stats::{counted, SystemStats};
use vstd::prelude::*;

verus! {

/// An account as it is opened: nothing logged, nothing won, nothing under
/// way.
pub open spec fn new_account(
    id: Seq<u8>,
    principal_text: Seq<char>,
    deposit_account: AccountView,
    balance: u64,
    now: u64,
) -> UserView {
    UserView {
        identity: id,
        balance,
        transaction_history: Seq::empty(),
        winning_history: Seq::empty(),
        deposit_account,
        principal_text,
        last_balance_check: now,
        pending_withdrawals: 0,
        pending_sweep: PendingSweep { main: 0, deposit: 0 },
    }
}

/// The store with one more account at the end of the directory.
pub open spec fn with_account(s: StateView, user: UserView) -> StateView {
    StateView { users: s.users.push(user), ..s }
}

/// Appending an account for an identity that has none keeps every account
/// in its place, and the new account is the identity's.
pub proof fn lemma_push_account(users: Seq<UserView>, user: UserView)
    requires
        distinct_identities(users),
        !has_account(users, user.identity),
    ensures
        distinct_identities(users.push(user)),
        has_account(users.push(user), user.identity),
        account_index(users.push(user), user.identity) == users.len(),
        forall|id: Seq<u8>| has_account(users, id) ==> has_account(users.push(user), id),
        forall|id: Seq<u8>|
            has_account(users, id) ==> account_index(users.push(user), id) == account_index(
                users,
                id,
            ),
{
    let after = users.push(user);
    assert forall|a: int, b: int|
        0 <= a < after.len() && 0 <= b < after.len() && a != b implies (
    #[trigger] after[a]).identity != (#[trigger] after[b]).identity by {
        if a < users.len() && b < users.len() {
            assert(users[a].identity != users[b].identity);
        } else if a < users.len() {
            assert(users[a].identity != user.identity);
        } else {
            assert(users[b].identity != user.identity);
        }
    }
    assert(after[users.len() as int].identity == user.identity);
    lemma_account_index(after, user.identity, users.len() as int);
    assert forall|id: Seq<u8>| has_account(users, id) implies has_account(after, id)
        && account_index(after, id) == account_index(users, id) by {
        let k = account_index(users, id);
        assert(after[k].identity == id);
        lemma_account_index(after, id, k);
    }
}

/// Opens an account for `identity` with the given text form, deposit
/// account and opening balance, unless the identity has one already.
/// Answers whether an account was opened.
pub fn open_account(
    state: &mut LotteryState,
    identity: Identity,
    principal_text: String,
    deposit_account: Account,
    balance: u64,
    now: u64,
) -> (opened: bool)
    requires
        old(state).wf(),
    ensures
        final(state).wf(),
        opened == !has_account(old(state)@.users, identity@),
        final(state)@ == if opened {
            with_account(
                old(state)@,
                new_account(identity@, principal_text@, deposit_account@, balance, now),
            )
        } else {
            old(state)@
        },
{
    if state.find_user(&identity).is_some() {
        return false;
    }
    let ghost before = state@;
    let user = User {
        identity,
        balance,
        transaction_history: Vec::new(),
        winning_history: Vec::new(),
        deposit_account,
        principal_text,
        last_balance_check: now,
        pending_withdrawals: 0,
        pending_sweep: PendingSweep { main: 0, deposit: 0 },
    };
    proof {
        assert(user@ =~= new_account(
            user.identity@,
            user.principal_text@,
            user.deposit_account@,
            balance,
            now,
        ));
        lemma_push_account(before.users, user@);
    }
    let ghost opened = user@;
    state.users.push(user);
    proof {
        assert(state@.users =~= before.users.push(opened));
        assert(state@ =~= with_account(before, opened));
        assert forall|k: int|
            0 <= k < state@.current_round.participants.len() implies has_account(
            state@.users,
            #[trigger] state@.current_round.participants[k],
        ) by {
            assert(has_account(before.users, before.current_round.participants[k]));
        }
    }
    true
}

/// The store after an account was registered for `id`: the account is
/// opened with nothing on it, with the identity's deposit account, and it is
/// counted.
pub open spec fn registered(s: StateView, id: Seq<u8>, now: u64) -> StateView {
    StateView {
        stats: SystemStats { active_users: counted(s.stats.active_users, 1), ..s.stats },
        ..with_account(
            s,
            new_account(
                id,
                text_of_principal(id),
                AccountView { owner: id, subaccount: Some(id) },
                0,
                now,
            ),
        )
    }
}

/// The store after the registration of `id` was asked for.
pub open spec fn after_registration(s: StateView, id: Seq<u8>, now: u64) -> StateView {
    if id.len() <= MAX_IDENTITY_BYTES && !has_account(s.users, id) {
        registered(s, id, now)
    } else {
        s
    }
}

/// Registers an account for `identity` unless it has one. Answers whether
/// an account was opened; an identity that is not valid is refused with
/// `ValidationError`.
pub fn register_user(state: &mut LotteryState, identity: Identity, now: u64) -> (r: Result<
    bool,
    LotteryError,
>)
    requires
        old(state).wf(),
    ensures
        final(state).wf(),
        final(state)@ == after_registration(old(state)@, identity@, now),
        match r {
            Ok(opened) => {
                &&& identity.wf()
                &&& opened == !has_account(old(state)@.users, identity@)
                &&& has_account(final(state)@.users, identity@)
            },
            Err(e) => !identity.wf() && e == LotteryError::ValidationError,
        },
{
    let text = match identity.to_text() {
        Some(text) => text,
        None => {
            return Err(LotteryError::ValidationError);
        },
    };
    let deposit_account = Account::deposit_of(&identity);
    let ghost before = state@;
    let opened = open_account(state, identity, text, deposit_account, 0, now);
    if opened {
        state.stats.active_users = state.stats.active_users.saturating_add(1);
        proof {
            let after = registered(before, identity@, now);
            assert(state@ =~= after);
            lemma_push_account(before.users, after.users[before.users.len() as int]);
        }
    }
    Ok(opened)
}

/// Registers an account for the identity that `principal` spells.
///
/// A text that is no principal is refused with `ValidationError`. Otherwise
/// this is [`register_user`] for the identity that the text stands for,
/// which is a valid one: where it had no account it has one afterwards,
/// empty, and the answer is `true`; where it had one nothing changes and
/// the answer is `false`.
pub fn create_user(state: &mut LotteryState, principal: &str, now: u64) -> (r: Result<
    bool,
    LotteryError,
>)
    requires
        old(state).wf(),
    ensures
        final(state).wf(),
        match principal_of_text(principal@) {
            Some(id) => {
                &&& id.len() <= MAX_IDENTITY_BYTES
                &&& r == Ok::<bool, LotteryError>(!has_account(old(state)@.users, id))
                &&& final(state)@ == if has_account(old(state)@.users, id) {
                    old(state)@
                } else {
                    registered(old(state)@, id, now)
                }
                &&& has_account(final(state)@.users, id)
            },
            None => {
                &&& final(state)@ == old(state)@
                &&& r == Err::<bool, LotteryError>(LotteryError::ValidationError)
            },
        },
{
    let identity = match Identity::from_text(principal) {
        Ok(identity) => identity,
        Err(e) => {
            return Err(e);
        },
    };
    register_user(state, identity, now)
}

/// The account of `identity`, if it has one.
pub fn get_user(state: &LotteryState, identity: &Identity) -> (r: Option<User>)
    requires
        state.wf(),
    ensures
        match r {
            Some(user) => has_account(state@.users, identity@) && user@
                == state@.users[account_index(state@.users, identity@)],
            None => !has_account(state@.users, identity@),
        },
{
    match state.find_user(identity) {
        Some(i) => Some(state.users[i].clone()),
        None => None,
    }
}

/// The deposit account of the identity that `principal` spells; `None`
/// where the text is no principal or the identity has no account.
pub fn get_user_deposit_account(state: &LotteryState, principal: &str) -> (r: Option<Account>)
    requires
        state.wf(),
    ensures
        match principal_of_text(principal@) {
            Some(id) => match r {
                Some(account) => has_account(state@.users, id) && account@
                    == state@.users[account_index(state@.users, id)].deposit_account,
                None => !has_account(state@.users, id),
            },
            None => r is None,
        },
{
    let identity = match Identity::from_text(principal) {
        Ok(identity) => identity,
        Err(_) => {
            return None;
        },
    };
    match state.find_user(&identity) {
        Some(i) => Some(state.users[i].deposit_account.clone()),
        None => None,
    }
}

/// The text forms of all identities that have an account, in the order the
/// accounts were opened.
pub fn get_all_users_debug(state: &LotteryState) -> (r: Vec<String>)
    ensures
        r@.len() == state@.users.len(),
        forall|i: int| 0 <= i < r@.len() ==> (#[trigger] r@[i])@ == state@.users[i].principal_text,
{
    let mut out: Vec<String> = Vec::new();
    let mut i: usize = 0;
    while i < state.users.len()
        invariant
            i <= state.users.len(),
            out@.len() == i,
            forall|j: int| 0 <= j < i ==> (#[trigger] out@[j])@ == state@.users[j].principal_text,
        decreases state.users.len() - i,
    {
        out.push(state.users[i].principal_text.clone());
        i = i + 1;
    }
    out
}

} // verus!
