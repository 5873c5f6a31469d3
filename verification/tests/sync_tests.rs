use wallet_tracker::sync::{sync_initial, sync_step, SyncAction, SyncEvent, SyncState};

fn drive(events: &[SyncEvent]) -> (SyncState, Vec<SyncAction>) {
    let (mut s, a) = sync_initial();
    let mut actions = vec![a];
    for e in events {
        let (s2, a2) = sync_step(s, *e).expect("event accepted");
        s = s2;
        actions.push(a2);
    }
    (s, actions)
}

#[test]
fn a_full_sync_in_order() {
    let (s, actions) = drive(&[
        SyncEvent::AccountsFetched { count: Some(2) },
        SyncEvent::BalanceStored { ok: true },
        SyncEvent::BalanceStored { ok: true },
        SyncEvent::SignaturesFetched { count: Some(2) },
        SyncEvent::DetailFetched { found: Some(true) },
        SyncEvent::TransactionStored { ok: true },
        SyncEvent::TransfersStored { ok: true },
        SyncEvent::DetailFetched { found: Some(false) },
        SyncEvent::MarkedSynced { ok: true },
    ]);
    assert_eq!(s, SyncState::Done);
    assert_eq!(
        actions,
        vec![
            SyncAction::FetchTokenAccounts,
            SyncAction::StoreBalance { index: 0 },
            SyncAction::StoreBalance { index: 1 },
            SyncAction::FetchSignatures { limit: 20 },
            SyncAction::FetchDetail { index: 0 },
            SyncAction::StoreTransaction { index: 0 },
            SyncAction::StoreTransfers { index: 0 },
            SyncAction::FetchDetail { index: 1 },
            SyncAction::MarkSynced,
            SyncAction::Finish,
        ]
    );
}

#[test]
fn nothing_to_store_goes_straight_through() {
    let (s, actions) = drive(&[
        SyncEvent::AccountsFetched { count: Some(0) },
        SyncEvent::SignaturesFetched { count: Some(0) },
        SyncEvent::MarkedSynced { ok: true },
    ]);
    assert_eq!(s, SyncState::Done);
    assert_eq!(
        actions,
        vec![
            SyncAction::FetchTokenAccounts,
            SyncAction::FetchSignatures { limit: 20 },
            SyncAction::MarkSynced,
            SyncAction::Finish,
        ]
    );
}

#[test]
fn the_first_failure_ends_the_sync() {
    let (s, actions) = drive(&[
        SyncEvent::AccountsFetched { count: Some(3) },
        SyncEvent::BalanceStored { ok: true },
        SyncEvent::BalanceStored { ok: false },
    ]);
    assert_eq!(s, SyncState::Failed);
    assert_eq!(actions.last(), Some(&SyncAction::Fail));
    assert!(!actions.contains(&SyncAction::MarkSynced));
    assert_eq!(sync_step(SyncState::Failed, SyncEvent::BalanceStored { ok: true }), None);
    assert_eq!(sync_step(SyncState::Done, SyncEvent::MarkedSynced { ok: true }), None);
}

#[test]
fn each_failing_step_fails() {
    let cases = [
        (SyncState::FetchingAccounts, SyncEvent::AccountsFetched { count: None }),
        (SyncState::FetchingSignatures, SyncEvent::SignaturesFetched { count: None }),
        (SyncState::FetchingDetail { next: 0, total: 1 }, SyncEvent::DetailFetched { found: None }),
        (SyncState::StoringTransaction { next: 0, total: 1 }, SyncEvent::TransactionStored { ok: false }),
        (SyncState::StoringTransfers { next: 0, total: 1 }, SyncEvent::TransfersStored { ok: false }),
        (SyncState::MarkingSynced, SyncEvent::MarkedSynced { ok: false }),
    ];
    for (s, e) in cases {
        assert_eq!(sync_step(s, e), Some((SyncState::Failed, SyncAction::Fail)));
    }
}

#[test]
fn a_missing_detail_stores_nothing() {
    assert_eq!(
        sync_step(SyncState::FetchingDetail { next: 0, total: 2 }, SyncEvent::DetailFetched { found: Some(false) }),
        Some((SyncState::FetchingDetail { next: 1, total: 2 }, SyncAction::FetchDetail { index: 1 }))
    );
    assert_eq!(
        sync_step(SyncState::FetchingDetail { next: 1, total: 2 }, SyncEvent::DetailFetched { found: Some(false) }),
        Some((SyncState::MarkingSynced, SyncAction::MarkSynced))
    );
}

#[test]
fn stray_events_are_refused() {
    assert_eq!(sync_step(SyncState::FetchingAccounts, SyncEvent::MarkedSynced { ok: true }), None);
    assert_eq!(sync_step(SyncState::StoringBalances { next: 1, total: 1 }, SyncEvent::BalanceStored { ok: true }), None);
}
