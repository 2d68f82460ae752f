use ckbtc_lottery::account::{PendingSweep, User};
use ckbtc_lottery::deposit::record_ckbtc_deposit;
use ckbtc_lottery::directory::{
    get_all_users_debug, get_user, get_user_deposit_account, open_account, register_user,
};
use ckbtc_lottery::error::LotteryError;
use ckbtc_lottery::identity::{Account, Identity};
use ckbtc_lottery::ledger::{TransferError, TransferOutcome, TransferResult};
use ckbtc_lottery::operator::{initialize_auth, set_treasury};
use ckbtc_lottery::queries::{
    get_ckbtc_canister_id, get_historical_winners, get_round, get_stats,
};
use ckbtc_lottery::round::{Round, ROUND_DURATION};
use ckbtc_lottery::stake::place_stake;
use ckbtc_lottery::state::LotteryState;
use ckbtc_lottery::stats::SystemStats;

fn id(byte: u8) -> Identity {
    Identity { bytes: vec![byte, 6] }
}

#[test]
fn the_first_claim_makes_the_operator() {
    let mut state = LotteryState::new(0).unwrap();
    assert!(initialize_auth(&mut state, id(1)));
    assert_eq!(state.admin, Some(id(1)));
    assert!(state.is_admin(&id(1)));
    assert!(!initialize_auth(&mut state, id(2)));
    assert_eq!(state.admin, Some(id(1)));
    assert!(!state.is_admin(&id(2)));
}

#[test]
fn the_treasury_is_what_the_operator_sets() {
    let mut state = LotteryState::new(0).unwrap();
    assert_eq!(state.treasury, None);
    let target = Account { owner: id(5), subaccount: Some(vec![1]) };
    assert_eq!(
        set_treasury(&mut state, &id(1), target.clone()),
        Err(LotteryError::Unauthorized)
    );
    assert_eq!(state.treasury, None);
    initialize_auth(&mut state, id(1));
    assert_eq!(set_treasury(&mut state, &id(2), target.clone()), Err(LotteryError::Unauthorized));
    assert_eq!(set_treasury(&mut state, &id(1), target.clone()), Ok(()));
    assert_eq!(state.treasury, Some(target));
}

#[test]
fn accounts_are_found_by_identity() {
    let mut state = LotteryState::new(0).unwrap();
    register_user(&mut state, id(1), 0).unwrap();
    register_user(&mut state, id(2), 0).unwrap();
    record_ckbtc_deposit(&mut state, &id(3), "h".to_string(), 9, 0).unwrap();
    assert_eq!(state.find_user(&id(1)), Some(0));
    assert_eq!(state.find_user(&id(2)), Some(1));
    assert_eq!(state.find_user(&id(3)), Some(2));
    assert_eq!(state.find_user(&id(4)), None);
    assert_eq!(get_user(&state, &id(3)).unwrap().balance, 9);
    assert_eq!(get_user(&state, &id(4)), None);
    let text = id(2).to_text().unwrap();
    assert_eq!(
        get_user_deposit_account(&state, &text),
        Some(Account { owner: id(2), subaccount: Some(id(2).bytes) })
    );
    assert_eq!(get_user_deposit_account(&state, &id(4).to_text().unwrap()), None);
    assert_eq!(get_user_deposit_account(&state, "not a principal"), None);
    assert_eq!(
        get_all_users_debug(&state),
        vec![id(1).to_text().unwrap(), id(2).to_text().unwrap(), id(3).to_text().unwrap()]
    );
}

#[test]
fn an_account_is_opened_as_given_once() {
    let mut state = LotteryState::new(0).unwrap();
    let account = Account { owner: id(7), subaccount: None };
    assert!(open_account(&mut state, id(1), "text".to_string(), account.clone(), 12, 5));
    assert_eq!(
        state.users,
        vec![User {
            identity: id(1),
            balance: 12,
            transaction_history: vec![],
            winning_history: vec![],
            deposit_account: account.clone(),
            principal_text: "text".to_string(),
            last_balance_check: 5,
            pending_withdrawals: 0,
            pending_sweep: PendingSweep { main: 0, deposit: 0 },
        }]
    );
    let once = state.clone();
    assert!(!open_account(&mut state, id(1), "other".to_string(), account, 99, 6));
    assert_eq!(state, once);
    assert_eq!(state.stats.active_users, 0);
}

#[test]
fn an_invalid_identity_is_not_registered() {
    let mut state = LotteryState::new(0).unwrap();
    let before = state.clone();
    assert_eq!(
        register_user(&mut state, Identity { bytes: vec![7; 30] }, 0),
        Err(LotteryError::ValidationError)
    );
    assert_eq!(state, before);
    assert_eq!(register_user(&mut state, Identity { bytes: vec![7; 29] }, 0), Ok(true));
}

#[test]
fn queries_hand_out_copies() {
    let mut state = LotteryState::new(0).unwrap();
    record_ckbtc_deposit(&mut state, &id(1), "h".to_string(), 9, 0).unwrap();
    place_stake(&mut state, &id(1), 1).unwrap();
    assert_eq!(get_round(&state), state.current_round);
    assert_eq!(get_stats(&state), state.stats);
    assert_eq!(
        get_stats(&state),
        SystemStats {
            total_rounds: 0,
            total_bets: 1,
            total_winnings: 0,
            active_users: 1,
            total_ckbtc_deposits: 9,
        }
    );
    assert_eq!(get_historical_winners(&state), vec![]);
    ckbtc_lottery::draw::check_and_auto_draw(&mut state, ROUND_DURATION, 0).unwrap();
    assert_eq!(get_historical_winners(&state), state.historical_winners);
    assert_eq!(get_historical_winners(&state).len(), 1);
    assert_eq!(get_ckbtc_canister_id(), "mxzaz-hqaaa-aaaar-qaada-cai");
}

#[test]
fn defaults_are_empty() {
    assert_eq!(SystemStats::default().total_rounds, 0);
    assert_eq!(SystemStats::default().total_ckbtc_deposits, 0);
    let user = User::default();
    assert_eq!(user.identity, Identity::anonymous());
    assert_eq!(user.balance, 0);
    assert_eq!(user.deposit_account, Account::default());
    assert_eq!(user.principal_text, "");
    let round = Round::open(3, 10);
    assert_eq!((round.id, round.start_time, round.end_time), (3, 10, 10 + ROUND_DURATION));
    assert_eq!(round.prize_pool, 0);
}

#[test]
fn ledger_answers_are_read() {
    assert_eq!(TransferOutcome::Unavailable.settle(), Err(LotteryError::LedgerUnavailable));
    assert_eq!(TransferOutcome::Replied(TransferResult::Completed(7)).settle(), Ok(7));
    for error in [
        TransferError::BadFee { expected_fee: 1 },
        TransferError::BadBurn { min_burn_amount: 1 },
        TransferError::InsufficientFunds { balance: 1 },
        TransferError::TooOld,
        TransferError::CreatedInFuture { ledger_time: 1 },
        TransferError::Duplicate { duplicate_of: 1 },
        TransferError::TemporarilyUnavailable,
        TransferError::GenericError { error_code: 1, message: "m".to_string() },
    ] {
        let outcome = TransferOutcome::Replied(TransferResult::Failed(error.clone()));
        assert_eq!(outcome.settle(), Err(LotteryError::LedgerRejected));
        assert_eq!(outcome.clone(), outcome);
    }
}

#[test]
fn a_well_formed_checkpoint_is_taken_back() {
    let mut state = LotteryState::new(0).unwrap();
    record_ckbtc_deposit(&mut state, &id(1), "h".to_string(), 9, 0).unwrap();
    record_ckbtc_deposit(&mut state, &id(2), "g".to_string(), 9, 0).unwrap();
    place_stake(&mut state, &id(1), 1).unwrap();
    place_stake(&mut state, &id(2), 1).unwrap();
    ckbtc_lottery::withdrawal::request_withdrawal(&mut state, &id(1), 3, 2).unwrap();
    assert!(state.is_well_formed());
    assert_eq!(LotteryState::restore(state.clone(), 50), Ok(state));
}

#[test]
fn a_damaged_checkpoint_gives_way_to_a_fresh_store() {
    let mut good = LotteryState::new(0).unwrap();
    record_ckbtc_deposit(&mut good, &id(1), "h".to_string(), 9, 0).unwrap();
    record_ckbtc_deposit(&mut good, &id(2), "g".to_string(), 9, 0).unwrap();
    place_stake(&mut good, &id(1), 1).unwrap();
    let fresh = LotteryState::new(50).unwrap();

    let mut damaged: Vec<LotteryState> = Vec::new();
    let mut s = good.clone();
    s.current_round.prize_pool = 2;
    damaged.push(s);
    let mut s = good.clone();
    s.current_round.end_time += 1;
    damaged.push(s);
    let mut s = good.clone();
    s.current_round.winners.push(id(1));
    damaged.push(s);
    let mut s = good.clone();
    s.current_round.participants.push(id(3));
    s.current_round.prize_pool += 1;
    damaged.push(s);
    let mut s = good.clone();
    s.users[1].identity = id(1);
    damaged.push(s);
    let mut s = good.clone();
    s.ckbtc_deposits[1].tx_hash = "h".to_string();
    damaged.push(s);
    let mut s = good.clone();
    s.users[0].pending_withdrawals = s.users[0].balance + 1;
    damaged.push(s);
    let mut s = good.clone();
    for round in 0..11 {
        s.historical_winners.push(ckbtc_lottery::round::HistoricalWinner {
            winner_principal: "w".to_string(),
            amount: 1,
            timestamp: 1,
            round_id: round,
        });
    }
    damaged.push(s);

    for state in damaged {
        assert!(!state.is_well_formed());
        assert_eq!(LotteryState::restore(state, 50), Ok(fresh.clone()));
    }
    let mut s = good.clone();
    s.current_round.prize_pool = 2;
    assert_eq!(LotteryState::restore(s, u64::MAX), Err(LotteryError::CapacityExceeded));
    assert_eq!(LotteryState::restore(good.clone(), u64::MAX), Ok(good));
}

#[test]
fn errors_have_words() {
    assert_eq!(LotteryError::ValidationError.message(), "Invalid principal or amount");
    assert_eq!(LotteryError::InsufficientBalance.message(), "Insufficient balance");
    assert_eq!(LotteryError::Unauthorized.message(), "Unauthorized");
    assert_eq!(LotteryError::LedgerUnavailable.message(), "Ledger unavailable");
    assert_eq!(LotteryError::LedgerRejected.message(), "Ledger rejected the transfer");
    assert_eq!(LotteryError::AccountNotFound.message(), "User not found");
    assert_eq!(LotteryError::RoundClosed.message(), "Round is closed");
    assert_eq!(LotteryError::CapacityExceeded.message(), "Amount out of range");
}
