use ckbtc_lottery::account::TransactionKind;
use ckbtc_lottery::deposit::record_deposit;
use ckbtc_lottery::directory::{create_user, get_user, register_user};
use ckbtc_lottery::draw::{beacon_value, check_and_auto_draw, trigger_draw};
use ckbtc_lottery::error::LotteryError;
use ckbtc_lottery::identity::Identity;
use ckbtc_lottery::operator::initialize_auth;
use ckbtc_lottery::round::{ROUND_DURATION, TICKET_PRICE};
use ckbtc_lottery::stake::{place_bet, place_stake};
use ckbtc_lottery::state::LotteryState;

fn id(byte: u8) -> Identity {
    Identity { bytes: vec![byte, 1] }
}

fn funded(state: &mut LotteryState, who: &Identity, amount: u64, hash: &str) {
    let text = who.to_text().unwrap();
    record_deposit(state, who, text, hash.to_string(), amount, 0).unwrap();
}

#[test]
fn fresh_store_opens_round_zero() {
    let state = LotteryState::new(7).unwrap();
    assert_eq!(state.current_round.id, 0);
    assert_eq!(state.current_round.start_time, 7);
    assert_eq!(state.current_round.end_time, 7 + ROUND_DURATION);
    assert_eq!(state.current_round.prize_pool, 0);
    assert!(state.current_round.participants.is_empty());
    assert!(state.current_round.winners.is_empty());
    assert!(state.users.is_empty());
    assert_eq!(state.admin, None);
}

#[test]
fn fresh_store_is_refused_when_close_time_overflows() {
    assert_eq!(LotteryState::new(u64::MAX).err(), Some(LotteryError::CapacityExceeded));
    assert_eq!(
        LotteryState::new(u64::MAX - ROUND_DURATION + 1).err(),
        Some(LotteryError::CapacityExceeded)
    );
    assert!(LotteryState::new(u64::MAX - ROUND_DURATION).is_ok());
}

#[test]
fn stake_moves_ticket_price_into_pool() {
    let mut state = LotteryState::new(0).unwrap();
    let a = id(1);
    funded(&mut state, &a, 10, "h");
    assert_eq!(place_stake(&mut state, &a, 5), Ok(()));
    let user = get_user(&state, &a).unwrap();
    assert_eq!(user.balance, 10 - TICKET_PRICE);
    assert_eq!(state.current_round.prize_pool, TICKET_PRICE);
    assert_eq!(state.current_round.participants, vec![a.clone()]);
    assert_eq!(state.stats.total_bets, 1);
    let last = user.transaction_history.last().unwrap();
    assert_eq!(last.transaction_type, TransactionKind::Bet);
    assert_eq!(last.amount, TICKET_PRICE);
    assert_eq!(last.timestamp, 5);
    assert_eq!(last.tx_hash, None);
    assert_eq!(last.ckbtc_address, Some(user.deposit_account.clone()));
}

#[test]
fn stake_without_account_is_refused() {
    let mut state = LotteryState::new(0).unwrap();
    let before = state.clone();
    assert_eq!(place_stake(&mut state, &id(1), 5), Err(LotteryError::AccountNotFound));
    assert_eq!(state, before);
}

#[test]
fn stake_without_funds_is_refused() {
    let mut state = LotteryState::new(0).unwrap();
    let a = id(1);
    assert_eq!(register_user(&mut state, a.clone(), 0), Ok(true));
    let before = state.clone();
    assert_eq!(place_stake(&mut state, &a, 5), Err(LotteryError::InsufficientBalance));
    assert_eq!(state, before);
}

#[test]
fn stake_at_close_time_is_refused() {
    let mut state = LotteryState::new(0).unwrap();
    let a = id(1);
    funded(&mut state, &a, 10, "h");
    let before = state.clone();
    assert_eq!(place_stake(&mut state, &a, ROUND_DURATION), Err(LotteryError::RoundClosed));
    assert_eq!(place_stake(&mut state, &a, ROUND_DURATION + 9), Err(LotteryError::RoundClosed));
    assert_eq!(state, before);
    assert_eq!(place_stake(&mut state, &a, ROUND_DURATION - 1), Ok(()));
}

#[test]
fn place_bet_parses_the_principal() {
    let mut state = LotteryState::new(0).unwrap();
    let a = id(1);
    funded(&mut state, &a, 2, "h");
    let text = a.to_text().unwrap();
    assert_eq!(place_bet(&mut state, &text, 1), Ok(()));
    assert_eq!(state.current_round.participants, vec![a.clone()]);
    let before = state.clone();
    assert_eq!(place_bet(&mut state, "no principal", 1), Err(LotteryError::ValidationError));
    assert_eq!(state, before);
}

#[test]
fn pool_is_ticket_price_times_stakes() {
    let mut state = LotteryState::new(0).unwrap();
    let a = id(1);
    let b = id(2);
    funded(&mut state, &a, 3, "ha");
    funded(&mut state, &b, 1, "hb");
    let requests = [&a, &b, &a, &b, &a, &a, &b];
    for (n, who) in requests.iter().enumerate() {
        let _ = place_stake(&mut state, who, n as u64);
        assert_eq!(
            state.current_round.prize_pool,
            TICKET_PRICE * state.current_round.participants.len() as u64
        );
    }
    assert_eq!(state.current_round.participants.len(), 4);
}

#[test]
fn draw_before_close_does_nothing() {
    let mut state = LotteryState::new(0).unwrap();
    let a = id(1);
    funded(&mut state, &a, 3, "ha");
    place_stake(&mut state, &a, 1).unwrap();
    let before = state.clone();
    assert_eq!(check_and_auto_draw(&mut state, ROUND_DURATION - 1, 99), Ok(None));
    assert_eq!(state, before);
}

#[test]
fn draw_of_empty_round_rotates_without_payout() {
    let mut state = LotteryState::new(0).unwrap();
    let closed = check_and_auto_draw(&mut state, ROUND_DURATION, 5).unwrap().unwrap();
    assert_eq!(closed.id, 0);
    assert!(closed.winners.is_empty());
    assert_eq!(state.current_round.id, 1);
    assert_eq!(state.current_round.start_time, ROUND_DURATION);
    assert_eq!(state.current_round.end_time, 2 * ROUND_DURATION);
    assert!(state.current_round.participants.is_empty());
    assert_eq!(state.stats.total_rounds, 1);
    assert_eq!(state.stats.total_winnings, 0);
    assert!(state.historical_winners.is_empty());
}

#[test]
fn three_stakes_against_one_in_round_five() {
    for randomness in [0u64, 1, 2, 3, 4, 7, u64::MAX] {
        let mut state = LotteryState::new(0).unwrap();
        let a = id(1);
        let b = id(2);
        funded(&mut state, &a, 10, "ha");
        funded(&mut state, &b, 10, "hb");
        for round in 1..=5u64 {
            let closed = check_and_auto_draw(&mut state, round * ROUND_DURATION, 0).unwrap();
            assert_eq!(closed.unwrap().id, round - 1);
        }
        assert_eq!(state.current_round.id, 5);
        let now = 5 * ROUND_DURATION + 1;
        place_stake(&mut state, &a, now).unwrap();
        place_stake(&mut state, &b, now).unwrap();
        place_stake(&mut state, &a, now).unwrap();
        place_stake(&mut state, &a, now).unwrap();
        assert_eq!(state.current_round.prize_pool, 4);
        let balance_a = get_user(&state, &a).unwrap().balance;
        let balance_b = get_user(&state, &b).unwrap().balance;
        assert_eq!((balance_a, balance_b), (7, 9));

        let stakes = state.current_round.participants.clone();
        let closed = check_and_auto_draw(&mut state, 6 * ROUND_DURATION, randomness)
            .unwrap()
            .unwrap();
        let winner = stakes[(randomness % 4) as usize].clone();
        assert_eq!(closed.id, 5);
        assert_eq!(closed.winners, vec![winner.clone()]);
        assert_eq!(closed.participants, stakes);
        assert_eq!(closed.prize_pool, 4);
        let after_a = get_user(&state, &a).unwrap().balance;
        let after_b = get_user(&state, &b).unwrap().balance;
        if winner == a {
            assert_eq!((after_a, after_b), (11, 9));
        } else {
            assert_eq!((after_a, after_b), (7, 13));
        }
        assert_eq!(state.current_round.id, 6);
        assert!(state.current_round.participants.is_empty());
        assert_eq!(state.current_round.prize_pool, 0);
        assert!(state.current_round.winners.is_empty());

        let won = get_user(&state, &winner).unwrap();
        let last = won.transaction_history.last().unwrap();
        assert_eq!(last.transaction_type, TransactionKind::Win);
        assert_eq!(last.amount, 4);
        assert_eq!(last.timestamp, 6 * ROUND_DURATION);
        let prize = won.winning_history.last().unwrap();
        assert_eq!((prize.amount, prize.round_id, prize.timestamp), (4, 5, 6 * ROUND_DURATION));
        let remembered = state.historical_winners.last().unwrap();
        assert_eq!(remembered.winner_principal, winner.to_text().unwrap());
        assert_eq!((remembered.amount, remembered.round_id), (4, 5));
        assert_eq!(state.stats.total_rounds, 6);
        assert_eq!(state.stats.total_winnings, 4);
    }
}

#[test]
fn winner_is_the_stake_at_randomness_modulo_stakes() {
    let mut state = LotteryState::new(0).unwrap();
    let a = id(1);
    let b = id(2);
    let c = id(3);
    for (who, hash) in [(&a, "a"), (&b, "b"), (&c, "c")] {
        funded(&mut state, who, 5, hash);
        place_stake(&mut state, who, 1).unwrap();
    }
    let closed = check_and_auto_draw(&mut state, ROUND_DURATION, 3 * 1000 + 2).unwrap().unwrap();
    assert_eq!(closed.winners, vec![c.clone()]);
    assert_eq!(get_user(&state, &c).unwrap().balance, 4 + 3);
}

#[test]
fn second_draw_at_the_same_time_does_nothing() {
    let mut state = LotteryState::new(0).unwrap();
    let a = id(1);
    funded(&mut state, &a, 5, "a");
    place_stake(&mut state, &a, 1).unwrap();
    assert!(check_and_auto_draw(&mut state, ROUND_DURATION, 0).unwrap().is_some());
    let once = state.clone();
    assert_eq!(check_and_auto_draw(&mut state, ROUND_DURATION, 1), Ok(None));
    assert_eq!(state, once);
    assert_eq!(get_user(&state, &a).unwrap().balance, 5);
}

#[test]
fn draw_is_refused_when_next_close_time_overflows() {
    let start = u64::MAX - ROUND_DURATION;
    let mut state = LotteryState::new(start).unwrap();
    let before = state.clone();
    assert_eq!(
        check_and_auto_draw(&mut state, u64::MAX, 0),
        Err(LotteryError::CapacityExceeded)
    );
    assert_eq!(state, before);
}

#[test]
fn draw_is_refused_when_prize_overflows_the_winner() {
    let mut state = LotteryState::new(0).unwrap();
    let a = id(1);
    funded(&mut state, &a, u64::MAX, "a");
    place_stake(&mut state, &a, 1).unwrap();
    funded(&mut state, &a, 1, "b");
    assert_eq!(get_user(&state, &a).unwrap().balance, u64::MAX);
    let before = state.clone();
    assert_eq!(
        check_and_auto_draw(&mut state, ROUND_DURATION, 0),
        Err(LotteryError::CapacityExceeded)
    );
    assert_eq!(state, before);
}

#[test]
fn only_the_last_ten_winners_are_remembered() {
    let mut state = LotteryState::new(0).unwrap();
    let a = id(1);
    funded(&mut state, &a, 100, "a");
    for round in 0..12u64 {
        place_stake(&mut state, &a, round * ROUND_DURATION + 1).unwrap();
        check_and_auto_draw(&mut state, (round + 1) * ROUND_DURATION, round).unwrap().unwrap();
    }
    assert_eq!(state.historical_winners.len(), 10);
    assert_eq!(state.historical_winners[0].round_id, 2);
    assert_eq!(state.historical_winners[9].round_id, 11);
    assert_eq!(get_user(&state, &a).unwrap().winning_history.len(), 12);
}

#[test]
fn only_the_operator_triggers_a_draw() {
    let mut state = LotteryState::new(0).unwrap();
    let admin = id(9);
    let other = id(8);
    let before = state.clone();
    assert_eq!(
        trigger_draw(&mut state, &admin, ROUND_DURATION, 0),
        Err(LotteryError::Unauthorized)
    );
    assert_eq!(state, before);
    assert!(initialize_auth(&mut state, admin.clone()));
    assert_eq!(
        trigger_draw(&mut state, &other, ROUND_DURATION, 0),
        Err(LotteryError::Unauthorized)
    );
    assert_eq!(trigger_draw(&mut state, &admin, ROUND_DURATION - 1, 0), Ok(None));
    let closed = trigger_draw(&mut state, &admin, ROUND_DURATION, 0).unwrap().unwrap();
    assert_eq!(closed.id, 0);
    assert_eq!(state.current_round.id, 1);
}

#[test]
fn create_user_opens_an_empty_account_once() {
    let mut state = LotteryState::new(0).unwrap();
    let a = id(1);
    let text = a.to_text().unwrap();
    assert_eq!(create_user(&mut state, &text, 3), Ok(true));
    assert_eq!(state.stats.active_users, 1);
    let user = get_user(&state, &a).unwrap();
    assert_eq!(user.balance, 0);
    assert_eq!(user.principal_text, text);
    assert_eq!(user.deposit_account.owner, a);
    assert_eq!(user.deposit_account.subaccount, Some(a.bytes.clone()));
    assert_eq!(user.last_balance_check, 3);
    assert!(user.transaction_history.is_empty());
    let once = state.clone();
    assert_eq!(create_user(&mut state, &text, 4), Ok(false));
    assert_eq!(state, once);
    assert_eq!(create_user(&mut state, "??", 4), Err(LotteryError::ValidationError));
    assert_eq!(state, once);
}

#[test]
fn beacon_output_is_read_lowest_byte_first() {
    assert_eq!(beacon_value(&vec![]), None);
    assert_eq!(beacon_value(&vec![1, 2, 3, 4, 5, 6, 7]), None);
    assert_eq!(beacon_value(&vec![0; 8]), Some(0));
    assert_eq!(beacon_value(&vec![1, 0, 0, 0, 0, 0, 0, 0]), Some(1));
    assert_eq!(beacon_value(&vec![0, 1, 0, 0, 0, 0, 0, 0]), Some(256));
    assert_eq!(beacon_value(&vec![255; 8]), Some(u64::MAX));
    let bytes = vec![0x88, 0x77, 0x66, 0x55, 0x44, 0x33, 0x22, 0x11, 0xff, 0xff];
    assert_eq!(beacon_value(&bytes), Some(0x1122_3344_5566_7788));
    assert_eq!(
        beacon_value(&bytes),
        Some(u64::from_le_bytes([0x88, 0x77, 0x66, 0x55, 0x44, 0x33, 0x22, 0x11]))
    );
}

#[test]
fn stakes_and_draws_neither_make_nor_lose_funds() {
    let mut state = LotteryState::new(0).unwrap();
    let a = id(1);
    let b = id(2);
    funded(&mut state, &a, 6, "ha");
    funded(&mut state, &b, 4, "hb");
    let owed = |state: &LotteryState| -> u64 {
        state.users.iter().map(|u| u.balance).sum::<u64>() + state.current_round.prize_pool
    };
    assert_eq!(owed(&state), 10);
    let mut now = 1;
    for round in 0..6u64 {
        for who in [&a, &b, &a] {
            let _ = place_stake(&mut state, who, now);
            assert_eq!(owed(&state), 10);
        }
        now = (round + 1) * ROUND_DURATION;
        check_and_auto_draw(&mut state, now, round * 7 + 1).unwrap().unwrap();
        assert_eq!(owed(&state), 10);
        assert_eq!(state.current_round.prize_pool, 0);
    }
}
