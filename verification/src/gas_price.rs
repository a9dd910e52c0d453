//! The gas price tracker.
//!
//! Each tick queries the L1 fee market; on success the shared sample is
//! replaced wholesale — never partially mutated, so a reader can never see a
//! torn value — and on failure the old sample is kept: a transient L1 failure
//! must not terminate the subsystem, staleness being tolerable where a crash
//! is not. The tracker therefore never exits with an error of its own; it
//! exits only when it observes cancellation.

use crate::cancel::CancellationSignal;
use vstd::prelude::*;

verus! {

/// One published reading of the L1 fee market. `observed_at` is the tick
/// time; staleness is derived by consumers from it, not enforced here.
#[derive(Clone, Copy, PartialEq, Eq, Debug)]
pub struct GasPriceSample {
    pub base_fee: u128,
    pub blob_fee: Option<u128>,
    pub observed_at: u64,
}

/// The shared, single-writer price cell. Readers take a copy of the whole
/// sample; the tracker replaces it atomically.
#[derive(Clone, Copy, PartialEq, Eq, Debug)]
pub struct GasPriceStore {
    pub sample: Option<GasPriceSample>,
}

/// What one query of the L1 fee market came back with.
#[derive(Clone, Copy, PartialEq, Eq, Debug)]
pub enum GasQueryOutcome {
    Success { base_fee: u128, blob_fee: Option<u128> },
    Failure,
}

/// What the tracker does after one tick: sleep until the next tick, or exit
/// cleanly because cancellation was observed. There is no error arm: the
/// tracker absorbs every query failure.
#[derive(Clone, Copy, PartialEq, Eq, Structural, Debug)]
pub enum TrackerStep {
    Sleep,
    ExitCancelled,
}

/// The store a tick leaves behind: replaced wholesale on success, unchanged
/// on failure.
pub open spec fn spec_tick(store: GasPriceStore, outcome: GasQueryOutcome, now: u64) -> GasPriceStore {
    match outcome {
        GasQueryOutcome::Success { base_fee, blob_fee } => GasPriceStore {
            sample: Some(GasPriceSample { base_fee, blob_fee, observed_at: now }),
        },
        GasQueryOutcome::Failure => store,
    }
}

impl GasPriceStore {
    /// A store that has not yet seen a successful tick.
    pub fn new() -> (r: GasPriceStore)
        ensures
            r.sample is None,
    {
        GasPriceStore { sample: None }
    }

    /// Replaces the sample wholesale.
    pub fn publish(&mut self, sample: GasPriceSample)
        ensures
            final(self).sample == Some(sample),
    {
        self.sample = Some(sample);
    }

    /// Reads the latest sample, if any tick has succeeded yet.
    pub fn current(&self) -> (r: Option<GasPriceSample>)
        ensures
            r == self.sample,
    {
        self.sample
    }
}

/// One tick of the tracker: a successful query replaces the sample with
/// fresh data stamped `now`; a failed query leaves the store untouched.
pub fn gas_price_tick(store: &mut GasPriceStore, outcome: GasQueryOutcome, now: u64)
    ensures
        *final(store) == spec_tick(*old(store), outcome, now),
        outcome is Failure ==> *final(store) == *old(store),
{
    match outcome {
        GasQueryOutcome::Success { base_fee, blob_fee } => {
            store.publish(GasPriceSample { base_fee, blob_fee, observed_at: now });
        },
        GasQueryOutcome::Failure => {},
    }
}

/// One iteration of the tracker loop. Cancellation is checked at the
/// iteration boundary: when it is set the tracker exits at once, cleanly and
/// without touching the store; otherwise the tick is applied and the tracker
/// sleeps until the next one.
pub fn tracker_step(
    signal: &CancellationSignal,
    store: &mut GasPriceStore,
    outcome: GasQueryOutcome,
    now: u64,
) -> (r: TrackerStep)
    ensures
        signal.spec_is_cancelled() ==> r == TrackerStep::ExitCancelled && *final(store) == *old(store),
        !signal.spec_is_cancelled() ==> r == TrackerStep::Sleep && *final(store) == spec_tick(
            *old(store),
            outcome,
            now,
        ),
{
    if signal.is_cancelled() {
        TrackerStep::ExitCancelled
    } else {
        gas_price_tick(store, outcome, now);
        TrackerStep::Sleep
    }
}

/// The store left after a whole run of ticks, applied in order.
pub open spec fn spec_run_ticks(s0: GasPriceStore, events: Seq<(GasQueryOutcome, u64)>) -> GasPriceStore
    decreases events.len(),
{
    if events.len() == 0 {
        s0
    } else {
        spec_tick(spec_run_ticks(s0, events.drop_last()), events.last().0, events.last().1)
    }
}

/// The index of the last successful query in a run, if any.
pub open spec fn spec_last_success(events: Seq<(GasQueryOutcome, u64)>) -> Option<int>
    decreases events.len(),
{
    if events.len() == 0 {
        None
    } else if events.last().0 is Success {
        Some(events.len() - 1)
    } else {
        spec_last_success(events.drop_last())
    }
}

/// Law: over any run of ticks, the published sample is exactly the one of
/// the last successful query, stamped with that query's tick time; where no
/// query succeeded the store is unchanged. A reader of `current` therefore
/// never sees a value older than the last successful tick, however success
/// and failure alternate.
pub proof fn lemma_run_tracks_last_success(s0: GasPriceStore, events: Seq<(GasQueryOutcome, u64)>)
    ensures
        match spec_last_success(events) {
            Some(i) => 0 <= i < events.len() && spec_run_ticks(s0, events) == spec_tick(
                s0,
                events[i].0,
                events[i].1,
            ) && events[i].0 is Success,
            None => spec_run_ticks(s0, events) == s0,
        },
    decreases events.len(),
{
    if events.len() == 0 {
    } else if events.last().0 is Success {
    } else {
        lemma_run_tracks_last_success(s0, events.drop_last());
    }
}

} // verus!
