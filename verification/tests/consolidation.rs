use ckbtc_lottery::account::{total_swept, ExternalRef, PendingSweep, TransactionKind};
use ckbtc_lottery::consolidation::{
    auto_check_and_consolidate_balance, auto_consolidate_user_accounts, plan_consolidation,
    SweepLeg,
};
use ckbtc_lottery::directory::{get_user, register_user};
use ckbtc_lottery::error::LotteryError;
use ckbtc_lottery::identity::{Account, Identity};
use ckbtc_lottery::ledger::{
    TransferError, TransferOutcome, TransferResult, TRANSFER_FEE,
};
use ckbtc_lottery::operator::{initialize_auth, set_treasury};
use ckbtc_lottery::state::LotteryState;

fn id(byte: u8) -> Identity {
    Identity { bytes: vec![byte, 3] }
}

fn treasury() -> Account {
    Account { owner: id(7), subaccount: Some(vec![1, 2, 3]) }
}

fn store_with(who: &Identity) -> LotteryState {
    let mut state = LotteryState::new(0).unwrap();
    let admin = id(9);
    initialize_auth(&mut state, admin.clone());
    set_treasury(&mut state, &admin, treasury()).unwrap();
    register_user(&mut state, who.clone(), 0).unwrap();
    state
}

#[test]
fn plan_asks_one_transfer_per_funded_address() {
    let y = id(1);
    let mut state = store_with(&y);
    let treasury = treasury();

    let requests =
        auto_check_and_consolidate_balance(&mut state, &y, Some(30), Some(50), 77).unwrap();
    assert_eq!(requests.len(), 2);
    assert_eq!(requests[0].leg, SweepLeg::Main);
    assert_eq!(requests[1].leg, SweepLeg::Deposit);
    let text = y.to_text().unwrap();
    assert_eq!(requests[0].transfer.to, treasury);
    assert_eq!(requests[0].transfer.amount, 30);
    assert_eq!(requests[0].transfer.fee, Some(TRANSFER_FEE));
    assert_eq!(requests[0].transfer.from_subaccount, None);
    assert_eq!(requests[0].transfer.created_at_time, Some(77));
    assert_eq!(
        requests[0].transfer.memo,
        Some(format!("Auto consolidation from main account of user {}", text).into_bytes())
    );
    assert_eq!(requests[1].transfer.to, treasury);
    assert_eq!(requests[1].transfer.amount, 50);
    assert_eq!(requests[1].transfer.from_subaccount, Some(y.bytes.clone()));
    assert_eq!(
        requests[1].transfer.memo,
        Some(format!("Auto consolidation from deposit account of user {}", text).into_bytes())
    );
    let user = get_user(&state, &y).unwrap();
    assert_eq!(user.pending_sweep, PendingSweep { main: 30, deposit: 50 });
    assert_eq!(user.balance, 0);
}

#[test]
fn plan_skips_empty_addresses() {
    let y = id(1);
    let mut state = store_with(&y);
    let before = state.clone();
    assert_eq!(auto_check_and_consolidate_balance(&mut state, &y, Some(0), Some(0), 1), Ok(vec![]));
    assert_eq!(state, before);
    let requests = auto_check_and_consolidate_balance(&mut state, &y, Some(0), Some(9), 1).unwrap();
    assert_eq!(requests.len(), 1);
    assert_eq!(requests[0].leg, SweepLeg::Deposit);
    assert_eq!(requests[0].transfer.amount, 9);
    assert_eq!(requests[0].transfer.from_subaccount, Some(y.bytes.clone()));
}

#[test]
fn plan_is_not_repeated_while_transfers_are_under_way() {
    let y = id(1);
    let mut state = store_with(&y);
    let requests = auto_check_and_consolidate_balance(&mut state, &y, Some(5), Some(0), 1);
    assert_eq!(requests.unwrap().len(), 1);
    let under_way = state.clone();
    assert_eq!(auto_check_and_consolidate_balance(&mut state, &y, Some(5), Some(8), 2), Ok(vec![]));
    assert_eq!(state, under_way);
}

#[test]
fn plan_is_refused_without_account() {
    let y = id(1);
    let mut state = store_with(&y);
    let before = state.clone();
    assert_eq!(
        auto_check_and_consolidate_balance(&mut state, &id(2), Some(5), Some(0), 1),
        Err(LotteryError::AccountNotFound)
    );
    assert_eq!(state, before);
    let requests =
        auto_check_and_consolidate_balance(&mut state, &y, Some(u64::MAX), Some(u64::MAX), 1);
    assert_eq!(requests.unwrap().len(), 2);
}

#[test]
fn failed_transfer_leaves_funds_in_place_and_retry_moves_them() {
    let y = id(1);
    let mut state = store_with(&y);
    ckbtc_lottery::reconcile::reconcile(&mut state, &y, 50, 0).unwrap();
    assert_eq!(get_user(&state, &y).unwrap().balance, 50);

    let requests = auto_check_and_consolidate_balance(&mut state, &y, Some(0), Some(50), 1);
    assert_eq!(requests.unwrap().len(), 1);
    assert_eq!(
        auto_consolidate_user_accounts(
            &mut state,
            &y,
            SweepLeg::Deposit,
            &TransferOutcome::Unavailable,
            2
        ),
        Err(LotteryError::LedgerUnavailable)
    );
    let user = get_user(&state, &y).unwrap();
    assert_eq!(user.balance, 50);
    assert_eq!(user.transaction_history.len(), 1);
    assert_eq!(total_swept(&user.transaction_history), 0);
    assert_eq!(user.pending_sweep, PendingSweep { main: 0, deposit: 0 });

    let requests = auto_check_and_consolidate_balance(&mut state, &y, Some(0), Some(50), 3);
    assert_eq!(requests.unwrap().len(), 1);
    assert_eq!(
        auto_consolidate_user_accounts(
            &mut state,
            &y,
            SweepLeg::Deposit,
            &TransferOutcome::Replied(TransferResult::Completed(812)),
            4
        ),
        Ok(50)
    );
    let user = get_user(&state, &y).unwrap();
    assert_eq!(user.balance, 50);
    assert_eq!(total_swept(&user.transaction_history), 50);
    let sweep = user.transaction_history.last().unwrap();
    assert_eq!(sweep.transaction_type, TransactionKind::ConsolidationSweep);
    assert_eq!(sweep.amount, 50);
    assert_eq!(sweep.timestamp, 4);
    assert_eq!(sweep.tx_hash, Some(ExternalRef::Block(812)));
    assert_eq!(sweep.ckbtc_address, Some(user.deposit_account.clone()));
    assert_eq!(user.pending_sweep, PendingSweep { main: 0, deposit: 0 });
}

#[test]
fn rejected_transfer_records_nothing() {
    let y = id(1);
    let mut state = store_with(&y);
    auto_check_and_consolidate_balance(&mut state, &y, Some(20), Some(30), 1).unwrap();
    assert_eq!(
        auto_consolidate_user_accounts(
            &mut state,
            &y,
            SweepLeg::Main,
            &TransferOutcome::Replied(TransferResult::Failed(TransferError::InsufficientFunds {
                balance: 3
            })),
            2
        ),
        Err(LotteryError::LedgerRejected)
    );
    let user = get_user(&state, &y).unwrap();
    assert!(user.transaction_history.is_empty());
    assert_eq!(user.pending_sweep, PendingSweep { main: 0, deposit: 30 });
    assert_eq!(
        auto_consolidate_user_accounts(
            &mut state,
            &y,
            SweepLeg::Deposit,
            &TransferOutcome::Replied(TransferResult::Completed(5)),
            3
        ),
        Ok(30)
    );
    let user = get_user(&state, &y).unwrap();
    assert_eq!(total_swept(&user.transaction_history), 30);
    assert_eq!(user.balance, 0);
    let sweep = user.transaction_history.last().unwrap();
    assert_eq!(sweep.ckbtc_address, Some(user.deposit_account.clone()));
}

#[test]
fn main_leg_is_recorded_with_the_main_account() {
    let y = id(1);
    let mut state = store_with(&y);
    auto_check_and_consolidate_balance(&mut state, &y, Some(20), Some(0), 1).unwrap();
    assert_eq!(
        auto_consolidate_user_accounts(
            &mut state,
            &y,
            SweepLeg::Main,
            &TransferOutcome::Replied(TransferResult::Completed(1)),
            2
        ),
        Ok(20)
    );
    let user = get_user(&state, &y).unwrap();
    let sweep = user.transaction_history.last().unwrap();
    assert_eq!(sweep.ckbtc_address, Some(Account { owner: y.clone(), subaccount: None }));
}

#[test]
fn settling_a_transfer_that_is_not_under_way_is_refused() {
    let y = id(1);
    let mut state = store_with(&y);
    let done = TransferOutcome::Replied(TransferResult::Completed(1));
    let before = state.clone();
    assert_eq!(
        auto_consolidate_user_accounts(&mut state, &y, SweepLeg::Main, &done, 2),
        Err(LotteryError::ValidationError)
    );
    assert_eq!(
        auto_consolidate_user_accounts(&mut state, &id(2), SweepLeg::Main, &done, 2),
        Err(LotteryError::AccountNotFound)
    );
    assert_eq!(state, before);
    auto_check_and_consolidate_balance(&mut state, &y, Some(0), Some(4), 1).unwrap();
    let planned = state.clone();
    assert_eq!(
        auto_consolidate_user_accounts(&mut state, &y, SweepLeg::Main, &done, 2),
        Err(LotteryError::ValidationError)
    );
    assert_eq!(state, planned);
}

#[test]
fn an_address_that_could_not_be_read_is_left_alone() {
    let y = id(1);
    let mut state = store_with(&y);
    let before = state.clone();
    assert_eq!(auto_check_and_consolidate_balance(&mut state, &y, None, None, 1), Ok(vec![]));
    assert_eq!(auto_check_and_consolidate_balance(&mut state, &y, None, Some(0), 1), Ok(vec![]));
    assert_eq!(state, before);
    let requests = auto_check_and_consolidate_balance(&mut state, &y, None, Some(6), 1).unwrap();
    assert_eq!(requests.len(), 1);
    assert_eq!(requests[0].leg, SweepLeg::Deposit);
    assert_eq!(
        get_user(&state, &y).unwrap().pending_sweep,
        PendingSweep { main: 0, deposit: 6 }
    );
    let mut other = before.clone();
    let requests = plan_consolidation(&mut other, &y, 0, 6, 1).unwrap();
    assert_eq!(requests.len(), 1);
    assert_eq!(other, state);
}

#[test]
fn nothing_is_swept_before_a_treasury_is_set() {
    let y = id(1);
    let mut state = LotteryState::new(0).unwrap();
    register_user(&mut state, y.clone(), 0).unwrap();
    let before = state.clone();
    assert_eq!(
        auto_check_and_consolidate_balance(&mut state, &y, Some(30), Some(50), 1),
        Ok(vec![])
    );
    assert_eq!(plan_consolidation(&mut state, &y, 30, 50, 1), Ok(vec![]));
    assert_eq!(state, before);
    let admin = id(9);
    initialize_auth(&mut state, admin.clone());
    set_treasury(&mut state, &admin, treasury()).unwrap();
    let requests = plan_consolidation(&mut state, &y, 30, 50, 1).unwrap();
    assert_eq!(requests.len(), 2);
    assert_eq!(requests[0].transfer.to, treasury());
}
