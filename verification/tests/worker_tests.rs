use rust_decimal::Decimal;
use std::str::FromStr;
use wallet_tracker::parser::TokenAccountInfo;
use wallet_tracker::worker::{
    balance_amounts, initial, step, WorkerAction, WorkerEvent, WorkerState, CYCLE_DELAY_SECS,
    RETRY_DELAY_SECS,
};

#[test]
fn worker_begins_by_checking_shutdown() {
    assert_eq!(initial(), (WorkerState::CheckingShutdown, WorkerAction::CheckShutdown));
}

#[test]
fn shutdown_request_stops_the_worker() {
    assert_eq!(
        step(WorkerState::CheckingShutdown, WorkerEvent::ShutdownChecked { requested: true }),
        Some((WorkerState::Stopped, WorkerAction::Stop))
    );
}

#[test]
fn failed_wallet_load_rests_then_starts_over() {
    let (s, a) = step(WorkerState::CheckingShutdown, WorkerEvent::ShutdownChecked { requested: false }).unwrap();
    assert_eq!((s, a), (WorkerState::FetchingWallets, WorkerAction::FetchWallets));
    let (s, a) = step(s, WorkerEvent::WalletsFetched { count: None }).unwrap();
    assert_eq!(a, WorkerAction::Sleep { seconds: RETRY_DELAY_SECS });
    assert_eq!(RETRY_DELAY_SECS, 30);
    let (s, a) = step(s, WorkerEvent::RetryElapsed).unwrap();
    assert_eq!((s, a), (WorkerState::CheckingShutdown, WorkerAction::CheckShutdown));
}

#[test]
fn a_round_syncs_each_wallet_in_order() {
    let (mut s, a) = step(WorkerState::FetchingWallets, WorkerEvent::WalletsFetched { count: Some(3) }).unwrap();
    let mut actions = vec![a];
    for _ in 0..3 {
        let (s2, a2) = step(s, WorkerEvent::WalletSynced).unwrap();
        s = s2;
        actions.push(a2);
    }
    assert_eq!(s, WorkerState::Waiting);
    assert_eq!(
        actions,
        vec![
            WorkerAction::SyncWallet { index: 0 },
            WorkerAction::SyncWallet { index: 1 },
            WorkerAction::SyncWallet { index: 2 },
            WorkerAction::WaitOrShutdown { seconds: 60 },
        ]
    );
    assert_eq!(CYCLE_DELAY_SECS, 60);
}

#[test]
fn no_wallets_goes_straight_to_waiting() {
    assert_eq!(
        step(WorkerState::FetchingWallets, WorkerEvent::WalletsFetched { count: Some(0) }),
        Some((WorkerState::Waiting, WorkerAction::WaitOrShutdown { seconds: 60 }))
    );
}

#[test]
fn waiting_ends_with_a_new_round_or_a_stop() {
    assert_eq!(
        step(WorkerState::Waiting, WorkerEvent::WaitElapsed),
        Some((WorkerState::CheckingShutdown, WorkerAction::CheckShutdown))
    );
    assert_eq!(
        step(WorkerState::Waiting, WorkerEvent::ShutdownSignalled { requested: true }),
        Some((WorkerState::Stopped, WorkerAction::Stop))
    );
}

#[test]
fn stopped_is_final_and_stray_events_are_refused() {
    for e in [
        WorkerEvent::ShutdownChecked { requested: false },
        WorkerEvent::WalletsFetched { count: Some(1) },
        WorkerEvent::RetryElapsed,
        WorkerEvent::WalletSynced,
        WorkerEvent::WaitElapsed,
        WorkerEvent::ShutdownSignalled { requested: true },
        WorkerEvent::ShutdownSignalled { requested: false },
    ] {
        assert_eq!(step(WorkerState::Stopped, e), None);
    }
    assert_eq!(step(WorkerState::CheckingShutdown, WorkerEvent::WalletSynced), None);
    assert_eq!(step(WorkerState::Syncing { next: 2, total: 2 }, WorkerEvent::WalletSynced), None);
}

#[test]
fn balance_amounts_scale_by_decimals() {
    let account = TokenAccountInfo { mint: "M".to_string(), amount_raw: 2_500_000, decimals: 6 };
    let (raw, amount) = balance_amounts(&account);
    assert_eq!(raw, 2_500_000);
    assert_eq!(amount, Decimal::from_str("2.5").unwrap());
}

#[test]
fn balance_amounts_wrap_the_raw_cast_but_not_the_decimal() {
    let account = TokenAccountInfo { mint: "M".to_string(), amount_raw: u64::MAX, decimals: 0 };
    let (raw, amount) = balance_amounts(&account);
    assert_eq!(raw, -1);
    assert_eq!(amount, Decimal::from(u64::MAX));
}

#[test]
fn a_flag_change_that_requests_nothing_keeps_waiting() {
    let (s, a) = step(WorkerState::Waiting, WorkerEvent::ShutdownSignalled { requested: false }).unwrap();
    assert_eq!((s, a), (WorkerState::Waiting, WorkerAction::ContinueWait));
    assert_eq!(
        step(s, WorkerEvent::WaitElapsed),
        Some((WorkerState::CheckingShutdown, WorkerAction::CheckShutdown))
    );
}
