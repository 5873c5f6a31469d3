//! The synchronisation of one wallet: its decisions, from one event to the
//! next. It stores the wallet's token balances, then reads its recent
//! signatures and stores each transaction found with its transfers, and
//! marks the wallet synced at last; the first failure ends it.

use crate::worker::RECENT_SIGNATURE_LIMIT;
use vstd::prelude::*;

verus! {

/// Where the synchronisation of a wallet stands.
#[derive(Clone, Copy, Debug, PartialEq, Eq, Structural)]
pub enum SyncState {
    /// It asked for the wallet's token accounts.
    FetchingAccounts,
    /// It asked to store the balance of account `next` of `total`.
    StoringBalances { next: usize, total: usize },
    /// It asked for the wallet's recent signatures.
    FetchingSignatures,
    /// It asked for the transaction of signature `next` of `total`.
    FetchingDetail { next: usize, total: usize },
    /// It asked to store the transaction of signature `next` of `total`.
    StoringTransaction { next: usize, total: usize },
    /// It asked to store the transfers of signature `next` of `total`.
    StoringTransfers { next: usize, total: usize },
    /// It asked to mark the wallet synced.
    MarkingSynced,
    /// The wallet is synced.
    Done,
    /// A step failed; its error is the result.
    Failed,
}

/// What the synchronisation learns from the outside.
#[derive(Clone, Copy, Debug)]
pub enum SyncEvent {
    /// The number of token accounts, `None` where the request failed.
    AccountsFetched { count: Option<usize> },
    /// Whether storing the balance succeeded.
    BalanceStored { ok: bool },
    /// The number of signatures, `None` where the request failed.
    SignaturesFetched { count: Option<usize> },
    /// Whether the node gave a transaction that decodes (`Some(true)`), gave
    /// none that does (`Some(false)`), or the request failed (`None`).
    DetailFetched { found: Option<bool> },
    /// Whether storing the transaction succeeded.
    TransactionStored { ok: bool },
    /// Whether storing its transfers succeeded.
    TransfersStored { ok: bool },
    /// Whether marking the wallet synced succeeded.
    MarkedSynced { ok: bool },
}

/// What the synchronisation asks to be done.
#[derive(Clone, Copy, Debug, PartialEq, Eq, Structural)]
pub enum SyncAction {
    FetchTokenAccounts,
    /// Store the balance of the token account at this index.
    StoreBalance { index: usize },
    /// Ask for at most this many recent signatures.
    FetchSignatures { limit: usize },
    /// Ask for the transaction of the signature at this index.
    FetchDetail { index: usize },
    /// Store the transaction of the signature at this index.
    StoreTransaction { index: usize },
    /// Store the transfers of the signature at this index.
    StoreTransfers { index: usize },
    MarkSynced,
    /// End with success.
    Finish,
    /// End with the error of the step that failed.
    Fail,
}

/// Whether an event reports success.
pub open spec fn succeeded(e: SyncEvent) -> bool {
    match e {
        SyncEvent::AccountsFetched { count } => count is Some,
        SyncEvent::BalanceStored { ok } => ok,
        SyncEvent::SignaturesFetched { count } => count is Some,
        SyncEvent::DetailFetched { found } => found is Some,
        SyncEvent::TransactionStored { ok } => ok,
        SyncEvent::TransfersStored { ok } => ok,
        SyncEvent::MarkedSynced { ok } => ok,
    }
}

/// Whether a state can be reached: an index lies in its list.
pub open spec fn sync_well_formed(s: SyncState) -> bool {
    match s {
        SyncState::StoringBalances { next, total } => next < total,
        SyncState::FetchingDetail { next, total } => next < total,
        SyncState::StoringTransaction { next, total } => next < total,
        SyncState::StoringTransfers { next, total } => next < total,
        _ => true,
    }
}

/// After the balance at `index` of `total`: the next balance, or the
/// signatures.
pub open spec fn after_balance(index: int, total: int) -> (SyncState, SyncAction) {
    if index + 1 < total {
        (
            SyncState::StoringBalances { next: (index + 1) as usize, total: total as usize },
            SyncAction::StoreBalance { index: (index + 1) as usize },
        )
    } else {
        (SyncState::FetchingSignatures, SyncAction::FetchSignatures { limit: RECENT_SIGNATURE_LIMIT })
    }
}

/// After the signature at `index` of `total`: the next signature, or marking
/// the wallet synced.
pub open spec fn after_signature(index: int, total: int) -> (SyncState, SyncAction) {
    if index + 1 < total {
        (
            SyncState::FetchingDetail { next: (index + 1) as usize, total: total as usize },
            SyncAction::FetchDetail { index: (index + 1) as usize },
        )
    } else {
        (SyncState::MarkingSynced, SyncAction::MarkSynced)
    }
}

/// The end of a failed synchronisation.
pub open spec fn failure() -> (SyncState, SyncAction) {
    (SyncState::Failed, SyncAction::Fail)
}

/// The decision of the synchronisation: the next state and action after
/// `event` in state `s`, or `None` for an event that cannot come in that
/// state.
pub open spec fn spec_sync_step(s: SyncState, event: SyncEvent) -> Option<(SyncState, SyncAction)> {
    match (s, event) {
        (SyncState::FetchingAccounts, SyncEvent::AccountsFetched { count }) => match count {
            None => Some(failure()),
            Some(n) => if n == 0 {
                Some(after_balance(0, 0))
            } else {
                Some((SyncState::StoringBalances { next: 0, total: n }, SyncAction::StoreBalance { index: 0 }))
            },
        },
        (SyncState::StoringBalances { next, total }, SyncEvent::BalanceStored { ok }) => if next >= total {
            None
        } else if ok {
            Some(after_balance(next as int, total as int))
        } else {
            Some(failure())
        },
        (SyncState::FetchingSignatures, SyncEvent::SignaturesFetched { count }) => match count {
            None => Some(failure()),
            Some(n) => if n == 0 {
                Some(after_signature(0, 0))
            } else {
                Some((SyncState::FetchingDetail { next: 0, total: n }, SyncAction::FetchDetail { index: 0 }))
            },
        },
        (SyncState::FetchingDetail { next, total }, SyncEvent::DetailFetched { found }) => if next >= total {
            None
        } else {
            match found {
                None => Some(failure()),
                Some(f) => if f {
                    Some(
                        (
                            SyncState::StoringTransaction { next, total },
                            SyncAction::StoreTransaction { index: next },
                        ),
                    )
                } else {
                    Some(after_signature(next as int, total as int))
                },
            }
        },
        (SyncState::StoringTransaction { next, total }, SyncEvent::TransactionStored { ok }) => if next
            >= total {
            None
        } else if ok {
            Some((SyncState::StoringTransfers { next, total }, SyncAction::StoreTransfers { index: next }))
        } else {
            Some(failure())
        },
        (SyncState::StoringTransfers { next, total }, SyncEvent::TransfersStored { ok }) => if next
            >= total {
            None
        } else if ok {
            Some(after_signature(next as int, total as int))
        } else {
            Some(failure())
        },
        (SyncState::MarkingSynced, SyncEvent::MarkedSynced { ok }) => if ok {
            Some((SyncState::Done, SyncAction::Finish))
        } else {
            Some(failure())
        },
        _ => None,
    }
}

/// The state and actions after a sequence of events, or `None` where one of
/// them cannot come when it does.
pub open spec fn sync_run(s: SyncState, events: Seq<SyncEvent>) -> Option<(SyncState, Seq<SyncAction>)>
    decreases events.len(),
{
    if events.len() == 0 {
        Some((s, Seq::empty()))
    } else {
        match spec_sync_step(s, events[0]) {
            None => None,
            Some((s1, a)) => match sync_run(s1, events.drop_first()) {
                None => None,
                Some((s2, rest)) => Some((s2, seq![a] + rest)),
            },
        }
    }
}

/// The first failure ends the synchronisation: a failed step leads to the
/// failed end, and nothing leads on from either end.
pub proof fn lemma_sync_failure_ends(s: SyncState, event: SyncEvent)
    ensures
        !succeeded(event) ==> (spec_sync_step(s, event) is None || spec_sync_step(s, event) == Some(
            failure(),
        )),
        spec_sync_step(SyncState::Failed, event) is None,
        spec_sync_step(SyncState::Done, event) is None,
{
}

/// Every decision leads from a reachable state to a reachable state.
pub proof fn lemma_sync_step_well_formed(s: SyncState, event: SyncEvent)
    requires
        sync_well_formed(s),
    ensures
        spec_sync_step(s, event) matches Some((s2, _)) ==> sync_well_formed(s2),
{
}

/// A signature without a transaction that decodes writes nothing: the
/// synchronisation goes on to the next signature, or to marking the wallet
/// synced.
pub proof fn lemma_missing_detail_stores_nothing(next: usize, total: usize)
    requires
        next < total,
    ensures
        spec_sync_step(
            (SyncState::FetchingDetail { next, total }),
            (SyncEvent::DetailFetched { found: Some(false) }),
        ) == Some(after_signature(next as int, total as int)),
        (after_signature(next as int, total as int).1 == (SyncAction::FetchDetail {
            index: (next + 1) as usize,
        }) || after_signature(next as int, total as int).1 == SyncAction::MarkSynced),
{
}

proof fn lemma_sync_run_len(s: SyncState, events: Seq<SyncEvent>)
    ensures
        (sync_run(s, events) matches Some((_, acts)) ==> acts.len() == events.len()),
    decreases events.len(),
{
    if events.len() > 0 {
        if let Some((s1, a)) = spec_sync_step(s, events[0]) {
            lemma_sync_run_len(s1, events.drop_first());
        }
    }
}

/// The wallet is marked synced, and the synchronisation ends with success,
/// only after every step before succeeded: wherever the actions ask to mark
/// the wallet synced or to finish, every event up to that point reported
/// success.
pub proof fn lemma_marked_only_after_success(s: SyncState, events: Seq<SyncEvent>, k: int)
    requires
        sync_run(s, events) matches Some((_, acts)) && 0 <= k < acts.len() && (acts[k]
            == SyncAction::MarkSynced || acts[k] == SyncAction::Finish),
    ensures
        forall|i: int| 0 <= i <= k ==> #[trigger] succeeded(events[i]),
    decreases events.len(),
{
    lemma_sync_run_len(s, events);
    let acts = (sync_run(s, events)->0).1;
    let (s1, a) = spec_sync_step(s, events[0])->0;
    let rest = events.drop_first();
    lemma_sync_failure_ends(s, events[0]);
    lemma_sync_run_len(s1, rest);
    let acts1 = (sync_run(s1, rest)->0).1;
    assert(acts == seq![a] + acts1);
    if !succeeded(events[0]) {
        assert(s1 == SyncState::Failed && a == SyncAction::Fail);
        if rest.len() > 0 {
            lemma_sync_failure_ends(SyncState::Failed, rest[0]);
        }
        assert(rest.len() == 0);
        assert(acts[0] == a);
        assert(false);
    }
    if k > 0 {
        assert(acts1[k - 1] == acts[k]);
        lemma_marked_only_after_success(s1, rest, k - 1);
        assert forall|i: int| 0 <= i <= k implies #[trigger] succeeded(events[i]) by {
            if i > 0 {
                assert(events[i] == rest[i - 1]);
                assert(succeeded(rest[i - 1]));
            }
        }
    }
}

/// The action a state waits on: the one that, once done, is reported back
/// to that state.
pub open spec fn awaited_action(s: SyncState) -> SyncAction {
    match s {
        SyncState::FetchingAccounts => SyncAction::FetchTokenAccounts,
        SyncState::StoringBalances { next, total } => SyncAction::StoreBalance { index: next },
        SyncState::FetchingSignatures => SyncAction::FetchSignatures { limit: RECENT_SIGNATURE_LIMIT },
        SyncState::FetchingDetail { next, total } => SyncAction::FetchDetail { index: next },
        SyncState::StoringTransaction { next, total } => SyncAction::StoreTransaction { index: next },
        SyncState::StoringTransfers { next, total } => SyncAction::StoreTransfers { index: next },
        SyncState::MarkingSynced => SyncAction::MarkSynced,
        SyncState::Done => SyncAction::Finish,
        SyncState::Failed => SyncAction::Fail,
    }
}

/// Every decision asks for exactly the work that its new state waits on.
pub proof fn lemma_sync_asks_what_it_awaits(s: SyncState, event: SyncEvent)
    ensures
        spec_sync_step(s, event) matches Some((s2, a)) ==> a == awaited_action(s2),
{
}

/// A sync ends with success only from marking the wallet synced, once that
/// succeeded.
pub proof fn lemma_finish_only_from_marking(s: SyncState, event: SyncEvent)
    ensures
        (spec_sync_step(s, event) matches Some((_, a)) && a == SyncAction::Finish) ==> (s
            == SyncState::MarkingSynced && (event matches SyncEvent::MarkedSynced { ok } && ok)),
{
}

/// In every run of events, the successful end is asked for right after the
/// wallet was asked to be marked synced (or first thing, where the run starts
/// while marking it): no sync ends with success without marking the wallet.
pub proof fn lemma_finish_right_after_marking(s: SyncState, events: Seq<SyncEvent>, k: int)
    requires
        sync_run(s, events) matches Some((_, acts)) && 0 <= k < acts.len() && acts[k]
            == SyncAction::Finish,
    ensures
        k == 0 ==> s == SyncState::MarkingSynced,
        k > 0 ==> (sync_run(s, events)->0).1[k - 1] == SyncAction::MarkSynced,
    decreases events.len(),
{
    lemma_sync_run_len(s, events);
    let acts = (sync_run(s, events)->0).1;
    let (s1, a) = spec_sync_step(s, events[0])->0;
    let rest = events.drop_first();
    lemma_sync_run_len(s1, rest);
    let acts1 = (sync_run(s1, rest)->0).1;
    assert(acts == seq![a] + acts1);
    if k == 0 {
        lemma_finish_only_from_marking(s, events[0]);
    } else {
        assert(acts1[k - 1] == acts[k]);
        lemma_finish_right_after_marking(s1, rest, k - 1);
        if k == 1 {
            lemma_sync_asks_what_it_awaits(s, events[0]);
        } else {
            assert(acts[k - 1] == acts1[k - 2]);
        }
    }
}

/// The signatures are always read after the balances, and the wallet is
/// marked synced after the signatures: with no token accounts the sync goes
/// on to read at most 20 recent signatures, and with no signatures it goes
/// on to mark the wallet synced.
pub proof fn lemma_empty_lists_move_on()
    ensures
        spec_sync_step(SyncState::FetchingAccounts, SyncEvent::AccountsFetched { count: Some(0) })
            == Some((SyncState::FetchingSignatures, (SyncAction::FetchSignatures { limit: 20 }))),
        spec_sync_step(SyncState::FetchingSignatures, SyncEvent::SignaturesFetched { count: Some(0) })
            == Some((SyncState::MarkingSynced, SyncAction::MarkSynced)),
        spec_sync_step(SyncState::MarkingSynced, SyncEvent::MarkedSynced { ok: true }) == Some(
            (SyncState::Done, SyncAction::Finish),
        ),
{
}

/// A transaction stored with success is followed by storing its transfers,
/// for the same signature.
pub proof fn lemma_transfers_follow_transaction(next: usize, total: usize)
    requires
        next < total,
    ensures
        spec_sync_step(
            (SyncState::StoringTransaction { next, total }),
            (SyncEvent::TransactionStored { ok: true }),
        ) == Some(((SyncState::StoringTransfers { next, total }), (SyncAction::StoreTransfers { index: next }))),
{
}

/// One signature whose transaction decodes: the transaction, then its
/// transfers, are stored under that signature's index, and then the next
/// signature's transaction is asked for, or, after the last signature, the
/// wallet is marked synced.
pub proof fn lemma_signature_with_transaction(next: usize, total: usize)
    requires
        next < total,
    ensures
        sync_run(
            (SyncState::FetchingDetail { next, total }),
            seq![
                SyncEvent::DetailFetched { found: Some(true) },
                SyncEvent::TransactionStored { ok: true },
                SyncEvent::TransfersStored { ok: true },
            ],
        ) == Some(
            if next + 1 < total {
                (
                    (SyncState::FetchingDetail { next: (next + 1) as usize, total }),
                    seq![
                        SyncAction::StoreTransaction { index: next },
                        SyncAction::StoreTransfers { index: next },
                        SyncAction::FetchDetail { index: (next + 1) as usize },
                    ],
                )
            } else {
                (
                    SyncState::MarkingSynced,
                    seq![
                        SyncAction::StoreTransaction { index: next },
                        SyncAction::StoreTransfers { index: next },
                        SyncAction::MarkSynced,
                    ],
                )
            },
        ),
{
    let evs = seq![
        SyncEvent::DetailFetched { found: Some(true) },
        SyncEvent::TransactionStored { ok: true },
        SyncEvent::TransfersStored { ok: true },
    ];
    let e1 = evs.drop_first();
    let e2 = e1.drop_first();
    let e3 = e2.drop_first();
    assert(e1 =~= seq![SyncEvent::TransactionStored { ok: true }, SyncEvent::TransfersStored { ok: true }]);
    assert(e2 =~= seq![SyncEvent::TransfersStored { ok: true }]);
    assert(e3 =~= Seq::<SyncEvent>::empty());
    let (s3, a3) = after_signature(next as int, total as int);
    assert(sync_run(s3, e3) == Some((s3, Seq::<SyncAction>::empty())));
    assert(sync_run((SyncState::StoringTransfers { next, total }), e2) == Some((s3, seq![a3])));
    assert(sync_run((SyncState::StoringTransaction { next, total }), e1) == Some(
        (s3, seq![SyncAction::StoreTransfers { index: next }] + seq![a3]),
    ));
    assert(seq![SyncAction::StoreTransfers { index: next }] + seq![a3] =~= seq![
        SyncAction::StoreTransfers { index: next },
        a3,
    ]);
    assert(seq![SyncAction::StoreTransaction { index: next }] + seq![
        SyncAction::StoreTransfers { index: next },
        a3,
    ] =~= seq![
        SyncAction::StoreTransaction { index: next },
        SyncAction::StoreTransfers { index: next },
        a3,
    ]);
}

/// The actions that store the balances of accounts `from`..`total`, in order.
pub open spec fn store_balance_actions(from: int, total: int) -> Seq<SyncAction>
    decreases total - from,
{
    if from >= total {
        Seq::empty()
    } else {
        seq![SyncAction::StoreBalance { index: from as usize }] + store_balance_actions(from + 1, total)
    }
}

/// `n` reports that a balance was stored.
pub open spec fn stored_events(n: nat) -> Seq<SyncEvent> {
    Seq::new(n, |i: int| SyncEvent::BalanceStored { ok: true })
}

proof fn lemma_store_rest(next: usize, total: usize)
    requires
        next < total,
    ensures
        sync_run(SyncState::StoringBalances { next, total }, stored_events((total - next) as nat)) == Some(
            (
                SyncState::FetchingSignatures,
                store_balance_actions(next + 1, total as int).push(
                    SyncAction::FetchSignatures { limit: RECENT_SIGNATURE_LIMIT },
                ),
            ),
        ),
    decreases total - next,
{
    let evs = stored_events((total - next) as nat);
    let last = SyncAction::FetchSignatures { limit: RECENT_SIGNATURE_LIMIT };
    assert(evs[0] == SyncEvent::BalanceStored { ok: true });
    if next + 1 < total {
        lemma_store_rest((next + 1) as usize, total);
        assert(evs.drop_first() =~= stored_events((total - (next + 1)) as nat));
        let a = SyncAction::StoreBalance { index: (next + 1) as usize };
        assert(spec_sync_step(SyncState::StoringBalances { next, total }, evs[0]) == Some(
            (SyncState::StoringBalances { next: (next + 1) as usize, total }, a),
        ));
        let tail = store_balance_actions(next + 2, total as int);
        assert(store_balance_actions(next + 1, total as int) == seq![a] + tail);
        assert(seq![a] + tail.push(last) =~= (seq![a] + tail).push(last));
        assert(sync_run(SyncState::StoringBalances { next: (next + 1) as usize, total }, evs.drop_first())
            == Some((SyncState::FetchingSignatures, tail.push(last))));
    } else {
        assert(evs.drop_first() =~= Seq::<SyncEvent>::empty());
        assert(spec_sync_step(SyncState::StoringBalances { next, total }, evs[0]) == Some(
            (SyncState::FetchingSignatures, last),
        ));
        assert(store_balance_actions(next + 1, total as int) =~= Seq::<SyncAction>::empty());
        assert(sync_run(SyncState::FetchingSignatures, evs.drop_first()) == Some(
            (SyncState::FetchingSignatures, Seq::<SyncAction>::empty()),
        ));
        assert(seq![last] + Seq::<SyncAction>::empty() =~= Seq::<SyncAction>::empty().push(last));
    }
}

/// The balances of the `n` token accounts are stored once each, in the order
/// of the accounts, before the signatures are asked for.
pub proof fn lemma_balances_stored_in_order(n: usize)
    requires
        n > 0,
    ensures
        sync_run(
            SyncState::FetchingAccounts,
            seq![SyncEvent::AccountsFetched { count: Some(n) }] + stored_events(n as nat),
        ) == Some(
            (
                SyncState::FetchingSignatures,
                store_balance_actions(0, n as int).push(
                    SyncAction::FetchSignatures { limit: RECENT_SIGNATURE_LIMIT },
                ),
            ),
        ),
{
    let evs = seq![SyncEvent::AccountsFetched { count: Some(n) }] + stored_events(n as nat);
    let last = SyncAction::FetchSignatures { limit: RECENT_SIGNATURE_LIMIT };
    let a = SyncAction::StoreBalance { index: 0 };
    lemma_store_rest(0, n);
    assert(evs.drop_first() =~= stored_events(n as nat));
    assert(evs[0] == SyncEvent::AccountsFetched { count: Some(n) });
    let tail = store_balance_actions(1, n as int);
    assert(store_balance_actions(0, n as int) == seq![a] + tail);
    assert(seq![a] + tail.push(last) =~= (seq![a] + tail).push(last));
}

/// Where the synchronisation of a wallet begins: it asks for the wallet's
/// token accounts.
pub fn sync_initial() -> (r: (SyncState, SyncAction))
    ensures
        r == (SyncState::FetchingAccounts, SyncAction::FetchTokenAccounts),
{
    (SyncState::FetchingAccounts, SyncAction::FetchTokenAccounts)
}

fn next_balance(next: usize, total: usize) -> (r: (SyncState, SyncAction))
    requires
        next < total,
    ensures
        r == after_balance(next as int, total as int),
{
    if total - next > 1 {
        (SyncState::StoringBalances { next: next + 1, total }, SyncAction::StoreBalance { index: next + 1 })
    } else {
        (SyncState::FetchingSignatures, SyncAction::FetchSignatures { limit: RECENT_SIGNATURE_LIMIT })
    }
}

fn next_signature(next: usize, total: usize) -> (r: (SyncState, SyncAction))
    requires
        next < total,
    ensures
        r == after_signature(next as int, total as int),
{
    if total - next > 1 {
        (SyncState::FetchingDetail { next: next + 1, total }, SyncAction::FetchDetail { index: next + 1 })
    } else {
        (SyncState::MarkingSynced, SyncAction::MarkSynced)
    }
}

/// One decision of the synchronisation of a wallet: each token account's
/// balance is stored in turn, then up to `RECENT_SIGNATURE_LIMIT` recent
/// signatures are read and, for each, the transaction is fetched and, where
/// one decodes, stored with its transfers; the wallet is marked synced at
/// last. The first step that fails ends it with that failure.
pub fn sync_step(s: SyncState, event: SyncEvent) -> (r: Option<(SyncState, SyncAction)>)
    ensures
        r == spec_sync_step(s, event),
{
    match (s, event) {
        (SyncState::FetchingAccounts, SyncEvent::AccountsFetched { count }) => match count {
            None => Some((SyncState::Failed, SyncAction::Fail)),
            Some(n) => if n == 0 {
                Some((SyncState::FetchingSignatures, SyncAction::FetchSignatures { limit: RECENT_SIGNATURE_LIMIT }))
            } else {
                Some((SyncState::StoringBalances { next: 0, total: n }, SyncAction::StoreBalance { index: 0 }))
            },
        },
        (SyncState::StoringBalances { next, total }, SyncEvent::BalanceStored { ok }) => if next >= total {
            None
        } else if ok {
            Some(next_balance(next, total))
        } else {
            Some((SyncState::Failed, SyncAction::Fail))
        },
        (SyncState::FetchingSignatures, SyncEvent::SignaturesFetched { count }) => match count {
            None => Some((SyncState::Failed, SyncAction::Fail)),
            Some(n) => if n == 0 {
                Some((SyncState::MarkingSynced, SyncAction::MarkSynced))
            } else {
                Some((SyncState::FetchingDetail { next: 0, total: n }, SyncAction::FetchDetail { index: 0 }))
            },
        },
        (SyncState::FetchingDetail { next, total }, SyncEvent::DetailFetched { found }) => if next >= total {
            None
        } else {
            match found {
                None => Some((SyncState::Failed, SyncAction::Fail)),
                Some(f) => if f {
                    Some(
                        (
                            SyncState::StoringTransaction { next, total },
                            SyncAction::StoreTransaction { index: next },
                        ),
                    )
                } else {
                    Some(next_signature(next, total))
                },
            }
        },
        (SyncState::StoringTransaction { next, total }, SyncEvent::TransactionStored { ok }) => if next
            >= total {
            None
        } else if ok {
            Some((SyncState::StoringTransfers { next, total }, SyncAction::StoreTransfers { index: next }))
        } else {
            Some((SyncState::Failed, SyncAction::Fail))
        },
        (SyncState::StoringTransfers { next, total }, SyncEvent::TransfersStored { ok }) => if next
            >= total {
            None
        } else if ok {
            Some(next_signature(next, total))
        } else {
            Some((SyncState::Failed, SyncAction::Fail))
        },
        (SyncState::MarkingSynced, SyncEvent::MarkedSynced { ok }) => if ok {
            Some((SyncState::Done, SyncAction::Finish))
        } else {
            Some((SyncState::Failed, SyncAction::Fail))
        },
        _ => None,
    }
}

} // verus!
