//! The house accounts: two accounts with fixed identities that are opened
//! with a grant, so that the house can take part in rounds, and that the
//! operator can top up.
//!
//! The house enters a round like anyone else, through [`enter_house`]: its
//! stakes are paid from its balances and are refused where anyone's would
//! be. A grant is recorded as such and counts as no deposit, so that it
//! plays no part in reconciliation.

use crate::account::{
    lemma_log_view_push, Transaction, TransactionKind, TransactionView, UserView,
};
use crate::directory::{new_account, open_account, with_account};
use crate::error::LotteryError;
use crate::identity::{principal_of_text, text_of_principal, Account, AccountView, Identity};
use crate::round::identity_views;
use crate::stake::{after_stakes_of, place_stake, stake_answer};
use crate::state::{
    account_index, has_account, lemma_update_keeps_accounts, LotteryState, StateView,
};
use std::collections::HashSet;
use vstd::prelude::*;

verus! {

broadcast use vstd::std_specs::hash::group_hash_axioms;

/// The text form of the first house identity.
pub const FIRST_FAKE_USER: &'static str =
    "mbge7-ijmh7-dt5e7-4e7un-ena3p-phmwu-7m5xb-jd4hr-4hdnh-hwxe6-jqe";

/// The text form of the second house identity.
pub const SECOND_FAKE_USER: &'static str =
    "5kfak-kgkib-cc25b-bk5ck-33bpa-kdjns-dy7mk-o7ns3-p3ehy-ugyib-rqe";

/// What a house account is opened with, and what a grant adds to it.
pub const FAKE_USER_GRANT: u64 = 1000;

/// The store with a house account for the identity that `text` spells:
/// opened with the grant where the text is a principal that has no account,
/// and otherwise as it was.
pub open spec fn with_house_account(s: StateView, text: Seq<char>, now: u64) -> StateView {
    match principal_of_text(text) {
        Some(id) => if has_account(s.users, id) {
            s
        } else {
            with_account(
                s,
                new_account(
                    id,
                    text_of_principal(id),
                    AccountView { owner: id, subaccount: Some(id) },
                    FAKE_USER_GRANT,
                    now,
                ),
            )
        },
        None => s,
    }
}

/// The store with both house accounts, each opened unless it exists.
pub open spec fn with_house_accounts(s: StateView, now: u64) -> StateView {
    with_house_account(with_house_account(s, FIRST_FAKE_USER@, now), SECOND_FAKE_USER@, now)
}

/// Opens the house account for the identity that `text` spells, unless
/// there is one.
fn open_house_account(state: &mut LotteryState, text: &str, now: u64)
    requires
        old(state).wf(),
    ensures
        final(state).wf(),
        final(state)@ == with_house_account(old(state)@, text@, now),
{
    let identity = match Identity::from_text(text) {
        Ok(identity) => identity,
        Err(_) => {
            return ;
        },
    };
    let principal_text = match identity.to_text() {
        Some(principal_text) => principal_text,
        // A parsed identity is valid.
        None => unreached(),
    };
    let deposit_account = Account::deposit_of(&identity);
    open_account(state, identity, principal_text, deposit_account, FAKE_USER_GRANT, now);
}

/// Opens the two house accounts, each unless it exists.
pub fn initialize_fake_users(state: &mut LotteryState, now: u64)
    requires
        old(state).wf(),
    ensures
        final(state).wf(),
        final(state)@ == with_house_accounts(old(state)@, now),
{
    open_house_account(state, FIRST_FAKE_USER, now);
    open_house_account(state, SECOND_FAKE_USER, now);
}

/// Opens the two house accounts at the operator's request.
pub fn initialize_fake_users_admin(state: &mut LotteryState, caller: &Identity, now: u64) -> (r:
    Result<(), LotteryError>)
    requires
        old(state).wf(),
    ensures
        final(state).wf(),
        if old(state)@.is_admin(caller@) {
            &&& r is Ok
            &&& final(state)@ == with_house_accounts(old(state)@, now)
        } else {
            &&& r == Err::<(), LotteryError>(LotteryError::Unauthorized)
            &&& final(state)@ == old(state)@
        },
{
    if !state.is_admin(caller) {
        return Err(LotteryError::Unauthorized);
    }
    initialize_fake_users(state, now);
    Ok(())
}

/// The record of a grant to the account `user`.
pub open spec fn grant_record(user: UserView, now: u64) -> TransactionView {
    TransactionView {
        amount: FAKE_USER_GRANT,
        timestamp: now,
        transaction_type: TransactionKind::FakeRecharge,
        tx_hash: None,
        ckbtc_address: Some(user.deposit_account),
    }
}

/// Whether the identity has an account that a grant fits on.
pub open spec fn can_grant(s: StateView, id: Seq<u8>) -> bool {
    has_account(s.users, id) && s.users[account_index(s.users, id)].balance + FAKE_USER_GRANT
        <= u64::MAX
}

/// The store after a grant to the account of `id`: credited and recorded
/// where the identity has an account that the grant fits on, and otherwise
/// as it was.
pub open spec fn granted(s: StateView, id: Seq<u8>, now: u64) -> StateView {
    if can_grant(s, id) {
        let i = account_index(s.users, id);
        let user = s.users[i];
        s.with_user(
            i,
            UserView {
                balance: (user.balance + FAKE_USER_GRANT) as u64,
                transaction_history: user.transaction_history.push(grant_record(user, now)),
                ..user
            },
        )
    } else {
        s
    }
}

/// Grants to the account of `identity`.
fn grant(state: &mut LotteryState, identity: &Identity, now: u64) -> (done: bool)
    requires
        old(state).wf(),
    ensures
        final(state).wf(),
        done == can_grant(old(state)@, identity@),
        final(state)@ == granted(old(state)@, identity@, now),
{
    let i = match state.find_user(identity) {
        Some(i) => i,
        None => {
            return false;
        },
    };
    let balance = match state.users[i].balance.checked_add(FAKE_USER_GRANT) {
        Some(balance) => balance,
        None => {
            return false;
        },
    };
    let ghost before = state@;
    let ghost after = granted(before, identity@, now);
    let record = Transaction {
        amount: FAKE_USER_GRANT,
        timestamp: now,
        transaction_type: TransactionKind::FakeRecharge,
        tx_hash: None,
        ckbtc_address: Some(state.users[i].deposit_account.clone()),
    };
    proof {
        assert(record@ == grant_record(before.users[i as int], now));
        lemma_log_view_push(state.users[i as int].transaction_history@, record);
    }
    state.users[i].balance = balance;
    state.users[i].transaction_history.push(record);
    proof {
        assert(state@.users =~= after.users);
        assert(state@ =~= after);
        lemma_update_keeps_accounts(before.users, i as int, after.users[i as int]);
    }
    true
}

/// Grants to the account of `identity` at the operator's request. Answers
/// whether the identity has an account that the grant fits on.
pub fn recharge_account(
    state: &mut LotteryState,
    caller: &Identity,
    identity: &Identity,
    now: u64,
) -> (r: Result<bool, LotteryError>)
    requires
        old(state).wf(),
    ensures
        final(state).wf(),
        if old(state)@.is_admin(caller@) {
            &&& r == Ok::<bool, LotteryError>(can_grant(old(state)@, identity@))
            &&& final(state)@ == granted(old(state)@, identity@, now)
        } else {
            &&& r == Err::<bool, LotteryError>(LotteryError::Unauthorized)
            &&& final(state)@ == old(state)@
        },
{
    if !state.is_admin(caller) {
        return Err(LotteryError::Unauthorized);
    }
    Ok(grant(state, identity, now))
}

/// The store after a grant to the house account that `text` spells.
pub open spec fn recharged(s: StateView, text: Seq<char>, now: u64) -> StateView {
    match principal_of_text(text) {
        Some(id) => granted(s, id, now),
        None => s,
    }
}

/// Grants to the house account that `text` spells.
fn recharge_house_account(state: &mut LotteryState, text: &str, now: u64)
    requires
        old(state).wf(),
    ensures
        final(state).wf(),
        final(state)@ == recharged(old(state)@, text@, now),
{
    match Identity::from_text(text) {
        Ok(identity) => {
            grant(state, &identity, now);
        },
        Err(_) => {},
    }
}

/// Grants to each of the two house accounts at the operator's request.
pub fn recharge_fake_users(state: &mut LotteryState, caller: &Identity, now: u64) -> (r: Result<
    (),
    LotteryError,
>)
    requires
        old(state).wf(),
    ensures
        final(state).wf(),
        if old(state)@.is_admin(caller@) {
            &&& r is Ok
            &&& final(state)@ == recharged(
                recharged(old(state)@, FIRST_FAKE_USER@, now),
                SECOND_FAKE_USER@,
                now,
            )
        } else {
            &&& r == Err::<(), LotteryError>(LotteryError::Unauthorized)
            &&& final(state)@ == old(state)@
        },
{
    if !state.is_admin(caller) {
        return Err(LotteryError::Unauthorized);
    }
    recharge_house_account(state, FIRST_FAKE_USER, now);
    recharge_house_account(state, SECOND_FAKE_USER, now);
    Ok(())
}

/// What is held for a house identity: its balance, or nothing where it has
/// no account.
#[derive(Debug, PartialEq, Eq)]
pub struct FakeUserStatus {
    pub identity: Identity,
    pub balance: Option<u64>,
}

/// What a [`FakeUserStatus`] holds.
#[verifier::ext_equal]
pub struct FakeUserStatusView {
    pub id: Seq<u8>,
    pub balance: Option<u64>,
}

impl View for FakeUserStatus {
    type V = FakeUserStatusView;

    open spec fn view(&self) -> FakeUserStatusView {
        FakeUserStatusView { id: self.identity@, balance: self.balance }
    }
}

/// The views of a list of statuses, in order.
pub open spec fn status_views(statuses: Seq<FakeUserStatus>) -> Seq<FakeUserStatusView> {
    statuses.map_values(|status: FakeUserStatus| status@)
}

/// What is held for the identity.
pub open spec fn status_of(s: StateView, id: Seq<u8>) -> FakeUserStatusView {
    FakeUserStatusView {
        id,
        balance: if has_account(s.users, id) {
            Some(s.users[account_index(s.users, id)].balance)
        } else {
            None
        },
    }
}

/// What is held for the identities that the texts spell, in order, without
/// the texts that are no principal.
pub open spec fn statuses(s: StateView, texts: Seq<Seq<char>>) -> Seq<FakeUserStatusView>
    decreases texts.len(),
{
    if texts.len() == 0 {
        Seq::empty()
    } else {
        let rest = statuses(s, texts.drop_last());
        match principal_of_text(texts.last()) {
            Some(id) => rest.push(status_of(s, id)),
            None => rest,
        }
    }
}

/// What is held for `identity`.
pub fn account_status(state: &LotteryState, identity: Identity) -> (r: FakeUserStatus)
    requires
        state.wf(),
    ensures
        r@ == status_of(state@, identity@),
{
    let balance = match state.find_user(&identity) {
        Some(i) => Some(state.users[i].balance),
        None => None,
    };
    FakeUserStatus { identity, balance }
}

/// What is held for the two house identities.
pub fn get_fake_users_status(state: &LotteryState) -> (r: Vec<FakeUserStatus>)
    requires
        state.wf(),
    ensures
        status_views(r@) == statuses(state@, seq![FIRST_FAKE_USER@, SECOND_FAKE_USER@]),
{
    let ghost texts = seq![FIRST_FAKE_USER@, SECOND_FAKE_USER@];
    let mut out: Vec<FakeUserStatus> = Vec::new();
    assert(status_views(out@) =~= statuses(state@, texts.take(0)));
    match Identity::from_text(FIRST_FAKE_USER) {
        Ok(identity) => {
            let status = account_status(state, identity);
            out.push(status);
        },
        Err(_) => {},
    }
    proof {
        assert(texts.take(1).drop_last() =~= texts.take(0));
        assert(texts.take(1).last() == FIRST_FAKE_USER@);
        assert(status_views(out@) =~= statuses(state@, texts.take(1)));
    }
    let ghost first = status_views(out@);
    match Identity::from_text(SECOND_FAKE_USER) {
        Ok(identity) => {
            let status = account_status(state, identity);
            out.push(status);
            assert(status_views(out@) =~= first.push(status@));
        },
        Err(_) => {},
    }
    proof {
        assert(texts.take(2) =~= texts);
        assert(texts.drop_last() =~= texts.take(1));
        assert(texts.last() == SECOND_FAKE_USER@);
    }
    out
}

/// The house identities that take part in a round, given as text: the
/// first alone where `seed` is even, the second and then the first where it
/// is odd.
pub open spec fn house_selection(seed: u32) -> Seq<Seq<char>> {
    if seed % 2 == 0 {
        seq![FIRST_FAKE_USER@]
    } else {
        seq![SECOND_FAKE_USER@, FIRST_FAKE_USER@]
    }
}

/// The identities that the texts spell, in order, without the texts that
/// are no principal.
pub open spec fn spelled(texts: Seq<Seq<char>>) -> Seq<Seq<u8>>
    decreases texts.len(),
{
    if texts.len() == 0 {
        Seq::empty()
    } else {
        let rest = spelled(texts.drop_last());
        match principal_of_text(texts.last()) {
            Some(id) => rest.push(id),
            None => rest,
        }
    }
}

/// The generator's next value: the value times 1103515245 plus 12345, in
/// 32 bits.
#[verifier::opaque]
pub open spec fn next_seed(seed: u32) -> u32 {
    seed.wrapping_mul(1103515245).wrapping_add(12345)
}

/// The store after the house entered the current round: the house accounts
/// exist, and each house identity that `seed` selects has asked for one
/// stake, in the order of the selection.
pub open spec fn house_entered(s: StateView, seed: u32, now: u64) -> StateView {
    after_stakes_of(with_house_accounts(s, now), spelled(house_selection(seed)), now)
}

/// Steps the generator. Its values alternate between even and odd.
fn advance(seed: u32) -> (r: u32)
    ensures
        r == next_seed(seed),
        r % 2 != seed % 2,
{
    let wrapped = seed.wrapping_mul(1103515245);
    proof {
        reveal(next_seed);
        assert(((seed * 1103515245u32) % 0x1_0000_0000) % 2 == seed % 2) by (bit_vector);
        assert(wrapped == (seed * 1103515245u32) % 0x1_0000_0000);
    }
    wrapped.wrapping_add(12345)
}

/// Picks the house identities that take part in a round.
///
/// One identity is picked where `seed` is even and two where it is odd. Each
/// is the one at the place that the generator's value has modulo 2, the
/// generator stepping on until it names one that was not picked yet.
pub fn get_random_fake_users(seed: u32) -> (r: Vec<Identity>)
    ensures
        identity_views(r@) == spelled(house_selection(seed)),
{
    let mut rng: u32 = seed;
    let count: u32 = (rng % 2) + 1;
    let mut selected: Vec<Identity> = Vec::new();
    let mut used: HashSet<usize> = HashSet::new();
    let mut picked: u32 = 0;
    let ghost texts = house_selection(seed);
    assert(identity_views(selected@) =~= spelled(texts.take(0)));
    while picked < count
        invariant
            picked <= count,
            count == seed % 2 + 1,
            texts == house_selection(seed),
            picked == 0 ==> rng == seed && used@ == Set::<usize>::empty(),
            picked == 1 && count == 2 ==> rng % 2 == 0 && !used@.contains(0),
            identity_views(selected@) == spelled(texts.take(picked as int)),
        decreases count - picked,
    {
        let mut index: usize = 0;
        loop
            invariant_except_break
                picked == 0 ==> rng == seed && used@ == Set::<usize>::empty(),
                picked == 1 ==> rng % 2 == 0 && !used@.contains(0),
            invariant
                picked < count,
                count == seed % 2 + 1,
            ensures
                index == if picked == 0 {
                    seed % 2
                } else {
                    0
                },
                picked == 0 && count == 2 ==> rng % 2 == 0 && !used@.contains(0),
            decreases 0int,
        {
            index = (rng % 2) as usize;
            rng = advance(rng);
            if !used.contains(&index) {
                used.insert(index);
                break ;
            }
        }
        let text = if index == 0 {
            FIRST_FAKE_USER
        } else {
            SECOND_FAKE_USER
        };
        proof {
            let next = texts.take(picked + 1);
            assert(next.drop_last() =~= texts.take(picked as int));
            assert(next.last() == text@);
        }
        match Identity::from_text(text) {
            Ok(identity) => {
                let ghost before = identity_views(selected@);
                selected.push(identity);
                assert(identity_views(selected@) =~= before.push(identity@));
            },
            Err(_) => {},
        }
        picked = picked + 1;
    }
    assert(texts.take(picked as int) =~= texts);
    selected
}

/// Lets the house enter the current round.
///
/// The house accounts are opened where they do not exist. Then each house
/// identity that `seed` selects (see [`get_random_fake_users`]) asks for one
/// stake, like anyone else: the ticket price is debited, and a stake that
/// is refused, for want of funds or because the round is due, is passed over
/// and the next one asked for. The answers come in the order of the
/// selection.
pub fn enter_house(state: &mut LotteryState, seed: u32, now: u64) -> (answers: Vec<
    Result<(), LotteryError>,
>)
    requires
        old(state).wf(),
    ensures
        final(state).wf(),
        final(state)@ == house_entered(old(state)@, seed, now),
        answers@.len() == spelled(house_selection(seed)).len(),
        forall|k: int|
            0 <= k < answers@.len() ==> #[trigger] answers@[k] == stake_answer(
                after_stakes_of(
                    with_house_accounts(old(state)@, now),
                    spelled(house_selection(seed)).take(k),
                    now,
                ),
                spelled(house_selection(seed))[k],
                now,
            ),
{
    initialize_fake_users(state, now);
    let houses = get_random_fake_users(seed);
    let ghost opened = state@;
    let ghost ids = identity_views(houses@);
    let mut answers: Vec<Result<(), LotteryError>> = Vec::new();
    let mut i: usize = 0;
    while i < houses.len()
        invariant
            i <= houses.len(),
            ids == identity_views(houses@),
            state.wf(),
            state@ == after_stakes_of(opened, ids.take(i as int), now),
            answers@.len() == i,
            forall|k: int|
                0 <= k < i ==> #[trigger] answers@[k] == stake_answer(
                    after_stakes_of(opened, ids.take(k), now),
                    ids[k],
                    now,
                ),
        decreases houses.len() - i,
    {
        proof {
            let next = ids.take(i + 1);
            assert(next.drop_last() =~= ids.take(i as int));
            assert(next.last() == houses@[i as int]@);
        }
        let answer = place_stake(state, &houses[i], now);
        answers.push(answer);
        i = i + 1;
    }
    assert(ids.take(i as int) =~= ids);
    answers
}

} // verus!
