use ckbtc_lottery::account::TransactionKind;
use ckbtc_lottery::directory::{get_user, register_user};
use ckbtc_lottery::error::LotteryError;
use ckbtc_lottery::house::{
    account_status, enter_house, get_fake_users_status, get_random_fake_users,
    initialize_fake_users,
    initialize_fake_users_admin, recharge_account, recharge_fake_users, FakeUserStatus,
    FAKE_USER_GRANT, FIRST_FAKE_USER, SECOND_FAKE_USER,
};
use ckbtc_lottery::identity::Identity;
use ckbtc_lottery::operator::initialize_auth;
use ckbtc_lottery::reconcile::reconcile;
use ckbtc_lottery::state::LotteryState;

fn first() -> Identity {
    Identity::from_text(FIRST_FAKE_USER).unwrap()
}

fn second() -> Identity {
    Identity::from_text(SECOND_FAKE_USER).unwrap()
}

#[test]
fn house_identities_are_principals() {
    assert_eq!(first().bytes.len(), 29);
    assert_eq!(second().bytes.len(), 29);
    assert_ne!(first(), second());
    assert_eq!(first().to_text().unwrap(), FIRST_FAKE_USER);
    assert_eq!(second().to_text().unwrap(), SECOND_FAKE_USER);
}

#[test]
fn house_accounts_are_opened_with_the_grant_once() {
    let mut state = LotteryState::new(0).unwrap();
    initialize_fake_users(&mut state, 3);
    assert_eq!(state.users.len(), 2);
    assert_eq!(state.users[0].identity, first());
    assert_eq!(state.users[1].identity, second());
    for user in state.users.iter() {
        assert_eq!(user.balance, 1000);
        assert_eq!(user.balance, FAKE_USER_GRANT);
        assert_eq!(user.deposit_account.owner, user.identity);
        assert_eq!(user.deposit_account.subaccount, Some(user.identity.bytes.clone()));
        assert_eq!(user.principal_text, user.identity.to_text().unwrap());
        assert_eq!(user.last_balance_check, 3);
        assert!(user.transaction_history.is_empty());
    }
    assert_eq!(state.stats.active_users, 0);
    let once = state.clone();
    initialize_fake_users(&mut state, 4);
    assert_eq!(state, once);
}

#[test]
fn an_existing_house_account_is_kept() {
    let mut state = LotteryState::new(0).unwrap();
    register_user(&mut state, second(), 1).unwrap();
    initialize_fake_users(&mut state, 3);
    assert_eq!(state.users.len(), 2);
    assert_eq!(get_user(&state, &second()).unwrap().balance, 0);
    assert_eq!(get_user(&state, &first()).unwrap().balance, 1000);
}

#[test]
fn only_the_operator_opens_and_tops_up_house_accounts() {
    let mut state = LotteryState::new(0).unwrap();
    let admin = Identity { bytes: vec![9] };
    let other = Identity { bytes: vec![8] };
    initialize_auth(&mut state, admin.clone());
    let before = state.clone();
    assert_eq!(
        initialize_fake_users_admin(&mut state, &other, 1),
        Err(LotteryError::Unauthorized)
    );
    assert_eq!(recharge_fake_users(&mut state, &other, 1), Err(LotteryError::Unauthorized));
    assert_eq!(
        recharge_account(&mut state, &other, &first(), 1),
        Err(LotteryError::Unauthorized)
    );
    assert_eq!(state, before);
    // Nothing to top up yet.
    assert_eq!(recharge_fake_users(&mut state, &admin, 1), Ok(()));
    assert_eq!(state, before);
    assert_eq!(initialize_fake_users_admin(&mut state, &admin, 2), Ok(()));
    assert_eq!(state.users.len(), 2);
    assert_eq!(recharge_fake_users(&mut state, &admin, 5), Ok(()));
    for who in [first(), second()] {
        let user = get_user(&state, &who).unwrap();
        assert_eq!(user.balance, 2000);
        let record = user.transaction_history.last().unwrap();
        assert_eq!(record.transaction_type, TransactionKind::FakeRecharge);
        assert_eq!(record.amount, 1000);
        assert_eq!(record.timestamp, 5);
        assert_eq!(record.tx_hash, None);
        assert_eq!(record.ckbtc_address, Some(user.deposit_account.clone()));
    }
}

#[test]
fn a_grant_that_does_not_fit_is_left_out() {
    let mut state = LotteryState::new(0).unwrap();
    let admin = Identity { bytes: vec![9] };
    initialize_auth(&mut state, admin.clone());
    initialize_fake_users(&mut state, 0);
    reconcile(&mut state, &first(), (u64::MAX - 1000 - 999) as u128, 1).unwrap();
    assert_eq!(get_user(&state, &first()).unwrap().balance, u64::MAX - 999);
    assert_eq!(recharge_account(&mut state, &admin, &first(), 2), Ok(false));
    assert_eq!(recharge_account(&mut state, &admin, &Identity { bytes: vec![1] }, 2), Ok(false));
    assert_eq!(recharge_account(&mut state, &admin, &second(), 2), Ok(true));
    assert_eq!(get_user(&state, &first()).unwrap().balance, u64::MAX - 999);
    assert_eq!(get_user(&state, &second()).unwrap().balance, 2000);
}

#[test]
fn an_even_seed_picks_the_first_house_identity() {
    for seed in [0u32, 2, 4, 1000, u32::MAX - 1] {
        assert_eq!(get_random_fake_users(seed), vec![first()]);
    }
}

#[test]
fn an_odd_seed_picks_the_second_and_then_the_first() {
    for seed in [1u32, 3, 5, 1001, u32::MAX] {
        assert_eq!(get_random_fake_users(seed), vec![second(), first()]);
    }
}

#[test]
fn house_status_tells_balance_or_absence() {
    let mut state = LotteryState::new(0).unwrap();
    assert_eq!(
        get_fake_users_status(&state),
        vec![
            FakeUserStatus { identity: first(), balance: None },
            FakeUserStatus { identity: second(), balance: None },
        ]
    );
    register_user(&mut state, second(), 1).unwrap();
    initialize_fake_users(&mut state, 3);
    assert_eq!(
        get_fake_users_status(&state),
        vec![
            FakeUserStatus { identity: first(), balance: Some(1000) },
            FakeUserStatus { identity: second(), balance: Some(0) },
        ]
    );
    let stranger = Identity { bytes: vec![1] };
    assert_eq!(
        account_status(&state, stranger.clone()),
        FakeUserStatus { identity: stranger, balance: None }
    );
}

#[test]
fn the_house_enters_a_round_through_the_same_door() {
    // An even seed: the first house identity alone.
    let mut state = LotteryState::new(0).unwrap();
    assert_eq!(enter_house(&mut state, 2, 5), vec![Ok(())]);
    assert_eq!(state.users.len(), 2);
    assert_eq!(state.current_round.participants, vec![first()]);
    assert_eq!(state.current_round.prize_pool, 1);
    assert_eq!(get_user(&state, &first()).unwrap().balance, 999);
    assert_eq!(get_user(&state, &second()).unwrap().balance, 1000);
    let bet = get_user(&state, &first()).unwrap().transaction_history.pop().unwrap();
    assert_eq!(bet.transaction_type, TransactionKind::Bet);
    assert_eq!((bet.amount, bet.timestamp), (1, 5));
    assert_eq!(state.stats.total_bets, 1);

    // An odd seed: the second and then the first.
    assert_eq!(enter_house(&mut state, 7, 6), vec![Ok(()), Ok(())]);
    assert_eq!(state.current_round.participants, vec![first(), second(), first()]);
    assert_eq!(state.current_round.prize_pool, 3);
    assert_eq!(get_user(&state, &first()).unwrap().balance, 998);
    assert_eq!(get_user(&state, &second()).unwrap().balance, 999);
}

#[test]
fn a_house_stake_that_is_refused_is_passed_over() {
    let mut state = LotteryState::new(0).unwrap();
    // The second house identity has an account without funds.
    register_user(&mut state, second(), 0).unwrap();
    assert_eq!(enter_house(&mut state, 1, 5), vec![Err(LotteryError::InsufficientBalance), Ok(())]);
    assert_eq!(state.current_round.participants, vec![first()]);
    assert_eq!(state.current_round.prize_pool, 1);

    // From the close time on the house is refused like anyone else.
    let before = state.clone();
    let due = state.current_round.end_time;
    assert_eq!(
        enter_house(&mut state, 1, due),
        vec![Err(LotteryError::RoundClosed), Err(LotteryError::RoundClosed)]
    );
    assert_eq!(state, before);
}
