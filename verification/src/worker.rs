//! The background worker: its decisions, from one event to the next, and
//! the amounts it stores for each token account.

use crate::amount::{pow10, scaled_decimal};
use crate::external::decimal_quotient;
use crate::parser::TokenAccountInfo;
use vstd::prelude::*;

verus! {

/// How long the worker rests after it failed to load the wallets.
pub const RETRY_DELAY_SECS: u64 = 30;

/// How long the worker waits between two rounds of synchronisation.
pub const CYCLE_DELAY_SECS: u64 = 60;

/// How many of the most recent signatures of a wallet one round reads.
pub const RECENT_SIGNATURE_LIMIT: usize = 20;

/// Where the worker stands.
#[derive(Clone, Copy, Debug, PartialEq, Eq, Structural)]
pub enum WorkerState {
    /// It asked whether shutdown was requested.
    CheckingShutdown,
    /// It asked for the list of wallets.
    FetchingWallets,
    /// Loading the wallets failed; it rests before the next round.
    Retrying,
    /// It asked to synchronise wallet `next` of `total`.
    Syncing { next: usize, total: usize },
    /// It waits for the next round, or for a shutdown signal.
    Waiting,
    /// It has stopped.
    Stopped,
}

/// What the worker learns from the outside.
#[derive(Clone, Copy, Debug)]
pub enum WorkerEvent {
    /// Whether shutdown was requested.
    ShutdownChecked { requested: bool },
    /// The number of wallets, or `None` where loading them failed.
    WalletsFetched { count: Option<usize> },
    /// The rest after a failure is over.
    RetryElapsed,
    /// The wallet it asked for was synchronised, or failed to be (a failure
    /// is logged, and changes nothing).
    WalletSynced,
    /// The wait between two rounds is over.
    WaitElapsed,
    /// The shutdown flag changed during the wait; `requested` is its new
    /// value (a change back to "not requested" is no shutdown signal).
    ShutdownSignalled { requested: bool },
}

/// What the worker asks to be done.
#[derive(Clone, Copy, Debug, PartialEq, Eq, Structural)]
pub enum WorkerAction {
    CheckShutdown,
    FetchWallets,
    /// Rest this long, then report `RetryElapsed`.
    Sleep { seconds: u64 },
    /// Synchronise the wallet at this index of the list, then report
    /// `WalletSynced`.
    SyncWallet { index: usize },
    /// Wait this long (`WaitElapsed`) unless the shutdown flag changes first
    /// (`ShutdownSignalled`).
    WaitOrShutdown { seconds: u64 },
    /// Go on with the wait begun by the last `WaitOrShutdown`, to the same
    /// end.
    ContinueWait,
    Stop,
}

/// Whether a state can be reached: a wallet being synchronised lies in the
/// list.
pub open spec fn well_formed(s: WorkerState) -> bool {
    s matches WorkerState::Syncing { next, total } ==> next < total
}

/// The state after the worker has finished the wallet at `index` of `total`,
/// and what it asks next.
pub open spec fn after_wallet(index: int, total: int) -> (WorkerState, WorkerAction) {
    if index + 1 < total {
        (
            WorkerState::Syncing { next: (index + 1) as usize, total: total as usize },
            WorkerAction::SyncWallet { index: (index + 1) as usize },
        )
    } else {
        (WorkerState::Waiting, WorkerAction::WaitOrShutdown { seconds: CYCLE_DELAY_SECS })
    }
}

/// The worker's decision: the next state and action after `event` in state
/// `s`, or `None` for an event that cannot come in that state.
pub open spec fn spec_step(s: WorkerState, event: WorkerEvent) -> Option<(WorkerState, WorkerAction)> {
    match (s, event) {
        (WorkerState::CheckingShutdown, WorkerEvent::ShutdownChecked { requested }) => if requested {
            Some((WorkerState::Stopped, WorkerAction::Stop))
        } else {
            Some((WorkerState::FetchingWallets, WorkerAction::FetchWallets))
        },
        (WorkerState::FetchingWallets, WorkerEvent::WalletsFetched { count }) => match count {
            None => Some((WorkerState::Retrying, WorkerAction::Sleep { seconds: RETRY_DELAY_SECS })),
            Some(n) => if n == 0 {
                Some((WorkerState::Waiting, WorkerAction::WaitOrShutdown { seconds: CYCLE_DELAY_SECS }))
            } else {
                Some((WorkerState::Syncing { next: 0, total: n }, WorkerAction::SyncWallet { index: 0 }))
            },
        },
        (WorkerState::Retrying, WorkerEvent::RetryElapsed) => Some(
            (WorkerState::CheckingShutdown, WorkerAction::CheckShutdown),
        ),
        (WorkerState::Syncing { next, total }, WorkerEvent::WalletSynced) => if next < total {
            Some(after_wallet(next as int, total as int))
        } else {
            None
        },
        (WorkerState::Waiting, WorkerEvent::WaitElapsed) => Some(
            (WorkerState::CheckingShutdown, WorkerAction::CheckShutdown),
        ),
        (WorkerState::Waiting, WorkerEvent::ShutdownSignalled { requested }) => if requested {
            Some((WorkerState::Stopped, WorkerAction::Stop))
        } else {
            Some((WorkerState::Waiting, WorkerAction::ContinueWait))
        },
        _ => None,
    }
}

/// The state and actions after a sequence of events, or `None` where one of
/// them cannot come when it does.
pub open spec fn run(s: WorkerState, events: Seq<WorkerEvent>) -> Option<(WorkerState, Seq<WorkerAction>)>
    decreases events.len(),
{
    if events.len() == 0 {
        Some((s, Seq::empty()))
    } else {
        match spec_step(s, events[0]) {
            None => None,
            Some((s1, a)) => match run(s1, events.drop_first()) {
                None => None,
                Some((s2, rest)) => Some((s2, seq![a] + rest)),
            },
        }
    }
}

/// Once stopped, the worker stays stopped: no event moves it.
pub proof fn lemma_stopped_is_final(event: WorkerEvent)
    ensures
        spec_step(WorkerState::Stopped, event) is None,
{
}

/// Every decision leads from a reachable state to a reachable state.
pub proof fn lemma_step_well_formed(s: WorkerState, event: WorkerEvent)
    requires
        well_formed(s),
    ensures
        spec_step(s, event) matches Some((s2, _)) ==> well_formed(s2),
{
}

/// During the wait, only a shutdown request ends it early: the flag changing
/// to "requested" stops the worker, and a change to "not requested" keeps it
/// waiting, to the same end.
pub proof fn lemma_only_shutdown_ends_wait(requested: bool)
    ensures
        spec_step(WorkerState::Waiting, WorkerEvent::ShutdownSignalled { requested }) == if requested {
            Some((WorkerState::Stopped, WorkerAction::Stop))
        } else {
            Some((WorkerState::Waiting, WorkerAction::ContinueWait))
        },
{
}

/// Every decision asks for exactly the work its new state waits on.
pub proof fn lemma_worker_asks_what_it_awaits(s: WorkerState, event: WorkerEvent)
    ensures
        spec_step(s, event) matches Some((s2, a)) ==> match s2 {
            WorkerState::CheckingShutdown => a == WorkerAction::CheckShutdown,
            WorkerState::FetchingWallets => a == WorkerAction::FetchWallets,
            WorkerState::Retrying => a == (WorkerAction::Sleep { seconds: 30 }),
            WorkerState::Syncing { next, total } => a == (WorkerAction::SyncWallet { index: next }),
            WorkerState::Waiting => a == (WorkerAction::WaitOrShutdown { seconds: 60 }) || a
                == WorkerAction::ContinueWait,
            WorkerState::Stopped => a == WorkerAction::Stop,
        },
{
}

/// A failed load of the wallets rests 30 seconds and then starts a new round
/// with a shutdown check; an elapsed wait starts a new round the same way.
pub proof fn lemma_failed_load_retries()
    ensures
        spec_step(WorkerState::FetchingWallets, WorkerEvent::WalletsFetched { count: None }) == Some(
            (WorkerState::Retrying, (WorkerAction::Sleep { seconds: 30 })),
        ),
        spec_step(WorkerState::Retrying, WorkerEvent::RetryElapsed) == Some(
            (WorkerState::CheckingShutdown, WorkerAction::CheckShutdown),
        ),
        spec_step(WorkerState::Waiting, WorkerEvent::WaitElapsed) == Some(
            (WorkerState::CheckingShutdown, WorkerAction::CheckShutdown),
        ),
        spec_step(WorkerState::CheckingShutdown, WorkerEvent::ShutdownChecked { requested: false })
            == Some((WorkerState::FetchingWallets, WorkerAction::FetchWallets)),
{
}

/// A shutdown request seen at the start of a round stops the worker.
pub proof fn lemma_shutdown_request_stops()
    ensures
        spec_step(WorkerState::CheckingShutdown, WorkerEvent::ShutdownChecked { requested: true })
            == Some((WorkerState::Stopped, WorkerAction::Stop)),
{
}

/// The actions that ask for wallets `from`..`total`, in order.
pub open spec fn sync_actions(from: int, total: int) -> Seq<WorkerAction>
    decreases total - from,
{
    if from >= total {
        Seq::empty()
    } else {
        seq![WorkerAction::SyncWallet { index: from as usize }] + sync_actions(from + 1, total)
    }
}

/// `n` reports that a wallet was synchronised.
pub open spec fn synced_events(n: nat) -> Seq<WorkerEvent> {
    Seq::new(n, |i: int| WorkerEvent::WalletSynced)
}

proof fn lemma_sync_rest(next: usize, total: usize)
    requires
        next < total,
    ensures
        run(WorkerState::Syncing { next, total }, synced_events((total - next) as nat)) == Some(
            (
                WorkerState::Waiting,
                sync_actions(next + 1, total as int).push(
                    WorkerAction::WaitOrShutdown { seconds: CYCLE_DELAY_SECS },
                ),
            ),
        ),
    decreases total - next,
{
    let evs = synced_events((total - next) as nat);
    assert(evs[0] == WorkerEvent::WalletSynced);
    if next + 1 < total {
        lemma_sync_rest((next + 1) as usize, total);
        assert(evs.drop_first() =~= synced_events((total - (next + 1)) as nat));
        assert(spec_step(WorkerState::Syncing { next, total }, evs[0]) == Some(
            (
                WorkerState::Syncing { next: (next + 1) as usize, total },
                WorkerAction::SyncWallet { index: (next + 1) as usize },
            ),
        ));
        let tail = sync_actions(next + 2, total as int);
        assert(sync_actions(next + 1, total as int) == seq![
            WorkerAction::SyncWallet { index: (next + 1) as usize },
        ] + tail);
        assert(seq![WorkerAction::SyncWallet { index: (next + 1) as usize }] + tail.push(
            WorkerAction::WaitOrShutdown { seconds: CYCLE_DELAY_SECS },
        ) =~= (seq![WorkerAction::SyncWallet { index: (next + 1) as usize }] + tail).push(
            WorkerAction::WaitOrShutdown { seconds: CYCLE_DELAY_SECS },
        ));
        assert(evs.len() > 0);
        assert(run(WorkerState::Syncing { next: (next + 1) as usize, total }, evs.drop_first())
            == Some((WorkerState::Waiting, tail.push(WorkerAction::WaitOrShutdown { seconds: CYCLE_DELAY_SECS }))));
    } else {
        assert(evs.drop_first() =~= Seq::<WorkerEvent>::empty());
        assert(spec_step(WorkerState::Syncing { next, total }, evs[0]) == Some(
            (WorkerState::Waiting, WorkerAction::WaitOrShutdown { seconds: CYCLE_DELAY_SECS }),
        ));
        assert(sync_actions(next + 1, total as int) =~= Seq::<WorkerAction>::empty());
        assert(run(WorkerState::Waiting, evs.drop_first()) == Some(
            (WorkerState::Waiting, Seq::<WorkerAction>::empty()),
        ));
        assert(seq![WorkerAction::WaitOrShutdown { seconds: CYCLE_DELAY_SECS }] + Seq::<
            WorkerAction,
        >::empty() =~= Seq::<WorkerAction>::empty().push(
            WorkerAction::WaitOrShutdown { seconds: CYCLE_DELAY_SECS },
        ));
    }
}

/// A round over `n` wallets asks to synchronise each of them once, in the
/// order of the list, and then waits for the next round.
pub proof fn lemma_round_syncs_every_wallet(n: usize)
    requires
        n > 0,
    ensures
        run(
            WorkerState::FetchingWallets,
            seq![WorkerEvent::WalletsFetched { count: Some(n) }] + synced_events(n as nat),
        ) == Some(
            (
                WorkerState::Waiting,
                sync_actions(0, n as int).push(WorkerAction::WaitOrShutdown { seconds: CYCLE_DELAY_SECS }),
            ),
        ),
{
    let evs = seq![WorkerEvent::WalletsFetched { count: Some(n) }] + synced_events(n as nat);
    lemma_sync_rest(0, n);
    assert(evs.drop_first() =~= synced_events(n as nat));
    assert(evs[0] == WorkerEvent::WalletsFetched { count: Some(n) });
    let tail = sync_actions(1, n as int);
    assert(sync_actions(0, n as int) == seq![WorkerAction::SyncWallet { index: 0 }] + tail);
    assert(seq![WorkerAction::SyncWallet { index: 0 }] + tail.push(
        WorkerAction::WaitOrShutdown { seconds: CYCLE_DELAY_SECS },
    ) =~= (seq![WorkerAction::SyncWallet { index: 0 }] + tail).push(
        WorkerAction::WaitOrShutdown { seconds: CYCLE_DELAY_SECS },
    ));
}

/// Where the worker begins: it first checks for a shutdown request.
pub fn initial() -> (r: (WorkerState, WorkerAction))
    ensures
        r == (WorkerState::CheckingShutdown, WorkerAction::CheckShutdown),
{
    (WorkerState::CheckingShutdown, WorkerAction::CheckShutdown)
}

/// One decision of the worker: a round checks for shutdown, loads the
/// wallets (resting `RETRY_DELAY_SECS` and starting over where that fails),
/// synchronises each wallet in turn, and then waits `CYCLE_DELAY_SECS` for
/// the next round unless a shutdown is requested first.
pub fn step(s: WorkerState, event: WorkerEvent) -> (r: Option<(WorkerState, WorkerAction)>)
    ensures
        r == spec_step(s, event),
{
    match (s, event) {
        (WorkerState::CheckingShutdown, WorkerEvent::ShutdownChecked { requested }) => if requested {
            Some((WorkerState::Stopped, WorkerAction::Stop))
        } else {
            Some((WorkerState::FetchingWallets, WorkerAction::FetchWallets))
        },
        (WorkerState::FetchingWallets, WorkerEvent::WalletsFetched { count }) => match count {
            None => Some((WorkerState::Retrying, WorkerAction::Sleep { seconds: RETRY_DELAY_SECS })),
            Some(n) => if n == 0 {
                Some((WorkerState::Waiting, WorkerAction::WaitOrShutdown { seconds: CYCLE_DELAY_SECS }))
            } else {
                Some((WorkerState::Syncing { next: 0, total: n }, WorkerAction::SyncWallet { index: 0 }))
            },
        },
        (WorkerState::Retrying, WorkerEvent::RetryElapsed) => Some(
            (WorkerState::CheckingShutdown, WorkerAction::CheckShutdown),
        ),
        (WorkerState::Syncing { next, total }, WorkerEvent::WalletSynced) => if next < total {
            if total - next > 1 {
                Some(
                    (
                        WorkerState::Syncing { next: next + 1, total: total },
                        WorkerAction::SyncWallet { index: next + 1 },
                    ),
                )
            } else {
                Some((WorkerState::Waiting, WorkerAction::WaitOrShutdown { seconds: CYCLE_DELAY_SECS }))
            }
        } else {
            None
        },
        (WorkerState::Waiting, WorkerEvent::WaitElapsed) => Some(
            (WorkerState::CheckingShutdown, WorkerAction::CheckShutdown),
        ),
        (WorkerState::Waiting, WorkerEvent::ShutdownSignalled { requested }) => if requested {
            Some((WorkerState::Stopped, WorkerAction::Stop))
        } else {
            Some((WorkerState::Waiting, WorkerAction::ContinueWait))
        },
        _ => None,
    }
}

/// The amounts stored for a token account: the raw amount cast to `i64`
/// (wrapped above `i64::MAX`), and the raw amount divided by
/// `10^decimals` as a decimal.
pub fn balance_amounts(account: &TokenAccountInfo) -> (r: (i64, rust_decimal::Decimal))
    requires
        account.decimals <= 19,
    ensures
        r.0 == account.amount_raw as i64,
        r.1 == decimal_quotient(account.amount_raw as int, pow10(account.decimals as nat) as int),
        r.1 == decimal_quotient(
            account.amount_raw as int,
            vstd::arithmetic::power::pow(10, account.decimals as nat),
        ),
{
    let amount = scaled_decimal(account.amount_raw as i128, account.decimals as u32);
    (account.amount_raw as i64, amount)
}

} // verus!
