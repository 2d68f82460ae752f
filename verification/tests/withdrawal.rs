use ckbtc_lottery::account::{ExternalRef, TransactionKind};
use ckbtc_lottery::deposit::record_ckbtc_deposit;
use ckbtc_lottery::directory::get_user;
use ckbtc_lottery::error::LotteryError;
use ckbtc_lottery::identity::{Account, Identity};
use ckbtc_lottery::ledger::{
    TransferError, TransferOutcome, TransferResult, TRANSFER_FEE,
};
use ckbtc_lottery::operator::{initialize_auth, set_treasury};
use ckbtc_lottery::stake::place_stake;
use ckbtc_lottery::state::LotteryState;
use ckbtc_lottery::withdrawal::{request_withdrawal, settle_withdrawal, withdraw_balance};

fn id(byte: u8) -> Identity {
    Identity { bytes: vec![byte, 4] }
}

fn store_with(who: &Identity, balance: u64) -> LotteryState {
    let mut state = LotteryState::new(0).unwrap();
    record_ckbtc_deposit(&mut state, who, "h".to_string(), balance, 0).unwrap();
    state
}

#[test]
fn request_reserves_and_names_the_transfer() {
    let a = id(1);
    let mut state = store_with(&a, 100);
    let admin = id(9);
    initialize_auth(&mut state, admin.clone());
    set_treasury(&mut state, &admin, Account { owner: id(7), subaccount: Some(vec![9, 9]) })
        .unwrap();
    let request = request_withdrawal(&mut state, &a, 60, 5).unwrap();
    assert_eq!(request.to, Account { owner: a.clone(), subaccount: None });
    assert_eq!(request.amount, 60);
    assert_eq!(request.fee, Some(TRANSFER_FEE));
    assert_eq!(request.fee, Some(1_000));
    assert_eq!(request.memo, Some(b"Lottery withdrawal".to_vec()));
    assert_eq!(request.from_subaccount, Some(vec![9, 9]));
    assert_eq!(request.created_at_time, Some(5));
    let user = get_user(&state, &a).unwrap();
    assert_eq!(user.balance, 100);
    assert_eq!(user.pending_withdrawals, 60);
}

#[test]
fn successful_transfer_debits_the_amount() {
    let a = id(1);
    let mut state = store_with(&a, 100);
    request_withdrawal(&mut state, &a, 60, 5).unwrap();
    let done = TransferOutcome::Replied(TransferResult::Completed(4711));
    assert_eq!(settle_withdrawal(&mut state, &a, 60, &done, 6), Ok(4711));
    let user = get_user(&state, &a).unwrap();
    assert_eq!(user.balance, 40);
    assert_eq!(user.pending_withdrawals, 0);
    let record = user.transaction_history.last().unwrap();
    assert_eq!(record.transaction_type, TransactionKind::Withdraw);
    assert_eq!(record.amount, 60);
    assert_eq!(record.timestamp, 6);
    assert_eq!(record.tx_hash, Some(ExternalRef::Block(4711)));
    assert_eq!(record.ckbtc_address, Some(Account { owner: a.clone(), subaccount: None }));
}

#[test]
fn failed_transfer_leaves_the_balance_untouched() {
    let a = id(1);
    let mut state = store_with(&a, 100);
    let before = state.clone();
    request_withdrawal(&mut state, &a, 60, 5).unwrap();
    assert_eq!(
        settle_withdrawal(&mut state, &a, 60, &TransferOutcome::Unavailable, 6),
        Err(LotteryError::LedgerUnavailable)
    );
    assert_eq!(state, before);
    request_withdrawal(&mut state, &a, 60, 7).unwrap();
    let rejected = TransferOutcome::Replied(TransferResult::Failed(TransferError::BadFee {
        expected_fee: 10,
    }));
    assert_eq!(
        settle_withdrawal(&mut state, &a, 60, &rejected, 8),
        Err(LotteryError::LedgerRejected)
    );
    assert_eq!(state, before);
}

#[test]
fn withdrawal_beyond_the_balance_is_refused() {
    let a = id(1);
    let mut state = store_with(&a, 100);
    let before = state.clone();
    assert_eq!(
        request_withdrawal(&mut state, &a, 101, 5).err(),
        Some(LotteryError::InsufficientBalance)
    );
    assert_eq!(
        request_withdrawal(&mut state, &id(2), 1, 5).err(),
        Some(LotteryError::AccountNotFound)
    );
    assert_eq!(state, before);
    assert!(request_withdrawal(&mut state, &a, 100, 5).is_ok());
}

#[test]
fn reserved_funds_cannot_be_spent_twice() {
    let a = id(1);
    let mut state = store_with(&a, 10);
    request_withdrawal(&mut state, &a, 10, 5).unwrap();
    let reserved = state.clone();
    assert_eq!(place_stake(&mut state, &a, 6), Err(LotteryError::InsufficientBalance));
    assert_eq!(
        request_withdrawal(&mut state, &a, 1, 6).err(),
        Some(LotteryError::InsufficientBalance)
    );
    assert_eq!(state, reserved);
    let done = TransferOutcome::Replied(TransferResult::Completed(1));
    assert_eq!(settle_withdrawal(&mut state, &a, 10, &done, 7), Ok(1));
    assert_eq!(get_user(&state, &a).unwrap().balance, 0);
}

#[test]
fn two_withdrawals_under_way_settle_apart() {
    let a = id(1);
    let mut state = store_with(&a, 10);
    request_withdrawal(&mut state, &a, 4, 5).unwrap();
    request_withdrawal(&mut state, &a, 6, 5).unwrap();
    assert_eq!(get_user(&state, &a).unwrap().pending_withdrawals, 10);
    assert_eq!(
        settle_withdrawal(&mut state, &a, 6, &TransferOutcome::Unavailable, 6),
        Err(LotteryError::LedgerUnavailable)
    );
    let done = TransferOutcome::Replied(TransferResult::Completed(3));
    assert_eq!(settle_withdrawal(&mut state, &a, 4, &done, 7), Ok(3));
    let user = get_user(&state, &a).unwrap();
    assert_eq!(user.balance, 6);
    assert_eq!(user.pending_withdrawals, 0);
}

#[test]
fn settlement_without_a_request_is_refused() {
    let a = id(1);
    let mut state = store_with(&a, 10);
    let done = TransferOutcome::Replied(TransferResult::Completed(3));
    let before = state.clone();
    assert_eq!(
        settle_withdrawal(&mut state, &a, 1, &done, 7),
        Err(LotteryError::ValidationError)
    );
    assert_eq!(
        settle_withdrawal(&mut state, &id(2), 1, &done, 7),
        Err(LotteryError::AccountNotFound)
    );
    assert_eq!(state, before);
    request_withdrawal(&mut state, &a, 5, 5).unwrap();
    let requested = state.clone();
    assert_eq!(
        settle_withdrawal(&mut state, &a, 6, &done, 7),
        Err(LotteryError::ValidationError)
    );
    assert_eq!(state, requested);
}

#[test]
fn withdraw_balance_parses_the_principal() {
    let a = id(1);
    let mut state = store_with(&a, 10);
    let text = a.to_text().unwrap();
    let request = withdraw_balance(&mut state, &text, 3, 9).unwrap();
    assert_eq!(request.to.owner, a);
    assert_eq!(request.amount, 3);
    assert_eq!(get_user(&state, &a).unwrap().pending_withdrawals, 3);
    let before = state.clone();
    assert_eq!(
        withdraw_balance(&mut state, "x y z", 3, 9).err(),
        Some(LotteryError::ValidationError)
    );
    assert_eq!(state, before);
}

#[test]
fn without_a_treasury_the_main_account_pays() {
    let a = id(1);
    let mut state = store_with(&a, 10);
    assert_eq!(state.treasury, None);
    let request = request_withdrawal(&mut state, &a, 4, 5).unwrap();
    assert_eq!(request.from_subaccount, None);
    assert_eq!(request.to, Account { owner: a.clone(), subaccount: None });
}
