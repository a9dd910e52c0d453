//! The sync orchestrator's join policy.
//!
//! The three watchers run concurrently under one cancellation domain with a
//! fail-fast, all-cancel policy: the join succeeds only if every watcher
//! exits cleanly via cancellation, and the first irrecoverable failure is
//! propagated while the siblings are cancelled so they unwind promptly.
//! When gas price sync is disabled that watcher is replaced by a no-op that
//! completes at once with success, so it can neither fail the join nor block
//! the other two.

use crate::cancel::CancellationSignal;
use crate::errors::SyncError;
use vstd::prelude::*;

verus! {

/// How one watcher ended.
#[derive(Clone, Copy, PartialEq, Eq, Structural, Debug)]
pub enum WatcherOutcome {
    /// The watcher exited cleanly, having observed cancellation.
    Completed,
    /// The watcher failed irrecoverably.
    Failed(SyncError),
}

/// The outcome the join sees for the gas price watcher: a disabled watcher
/// is the immediately successful no-op.
pub open spec fn spec_effective_gas_outcome(
    gas_price_sync_disabled: bool,
    outcome: WatcherOutcome,
) -> WatcherOutcome {
    if gas_price_sync_disabled {
        WatcherOutcome::Completed
    } else {
        outcome
    }
}

/// The fail-fast join of the three watchers: `Ok` only if all completed
/// cleanly; otherwise the propagated failure, watchers considered in the
/// order they are joined.
pub open spec fn spec_join(
    state_update: WatcherOutcome,
    gas_price: WatcherOutcome,
    messaging: WatcherOutcome,
) -> Result<(), SyncError> {
    match state_update {
        WatcherOutcome::Failed(e) => Err(e),
        WatcherOutcome::Completed => match gas_price {
            WatcherOutcome::Failed(e) => Err(e),
            WatcherOutcome::Completed => match messaging {
                WatcherOutcome::Failed(e) => Err(e),
                WatcherOutcome::Completed => Ok(()),
            },
        },
    }
}

/// Resolves the join once every watcher has ended, and leaves the shared
/// signal cancelled on every path: either the caller had cancelled it — the
/// only way all watchers complete cleanly — or the failure path cancels the
/// siblings of the failed watcher.
pub fn orchestrate_outcomes(
    signal: &mut CancellationSignal,
    gas_price_sync_disabled: bool,
    state_update: WatcherOutcome,
    gas_price: WatcherOutcome,
    messaging: WatcherOutcome,
) -> (r: Result<(), SyncError>)
    ensures
        final(signal).spec_is_cancelled(),
        r == spec_join(
            state_update,
            spec_effective_gas_outcome(gas_price_sync_disabled, gas_price),
            messaging,
        ),
        gas_price_sync_disabled ==> r == spec_join(
            state_update,
            WatcherOutcome::Completed,
            messaging,
        ),
        r is Ok <==> state_update == WatcherOutcome::Completed && messaging
            == WatcherOutcome::Completed && (gas_price_sync_disabled || gas_price
            == WatcherOutcome::Completed),
{
    signal.cancel();
    match state_update {
        WatcherOutcome::Failed(e) => Err(e),
        WatcherOutcome::Completed => {
            let effective_gas = if gas_price_sync_disabled {
                WatcherOutcome::Completed
            } else {
                gas_price
            };
            match effective_gas {
                WatcherOutcome::Failed(e) => Err(e),
                WatcherOutcome::Completed => match messaging {
                    WatcherOutcome::Failed(e) => Err(e),
                    WatcherOutcome::Completed => Ok(()),
                },
            }
        },
    }
}

/// Law: a disabled gas price watcher never decides the join — whatever its
/// outcome would have been, the join reads only the other two watchers.
pub proof fn lemma_disabled_gas_never_fails_join(
    state_update: WatcherOutcome,
    gas_price_a: WatcherOutcome,
    gas_price_b: WatcherOutcome,
    messaging: WatcherOutcome,
)
    ensures
        spec_join(
            state_update,
            spec_effective_gas_outcome(true, gas_price_a),
            messaging,
        ) == spec_join(state_update, spec_effective_gas_outcome(true, gas_price_b), messaging),
        spec_effective_gas_outcome(true, gas_price_a) == WatcherOutcome::Completed,
{
}

} // verus!
