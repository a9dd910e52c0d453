use l1_sync::backoff::{next_delay, retry_decision, BackoffPolicy, BackoffState, RetryDecision};
use l1_sync::cancel::CancellationSignal;
use l1_sync::errors::{ErrorKind, InconsistencyKind, SyncError, WatcherKind};
use l1_sync::gas_price::{
    gas_price_tick, tracker_step, GasPriceSample, GasPriceStore, GasQueryOutcome, TrackerStep,
};
use l1_sync::ingestor::{
    advance_cursor, ingestor_step, key_of, plan_batch, record_submission, to_pending_transaction,
    IngestorState, IngestorStep, L1ToL2Message, MessageKey, SubmissionOutcome,
};
use l1_sync::orchestrator::{orchestrate_outcomes, WatcherOutcome};
use l1_sync::reconciler::{
    apply_state_update, detect_reorg, plan_rewind, reconcile_batch, reconciler_step,
    validate_state_update, Candidate, L1HeadCheckpoint, ReconcilerConfig, StateUpdateEvent,
};
use l1_sync::types::{ChainId, Felt252};

fn felt(v: u64) -> Felt252 {
    Felt252 { d0: 0, d1: 0, d2: 0, d3: v }
}

fn config() -> ReconcilerConfig {
    ReconcilerConfig {
        chain_id: ChainId { id: felt(23448594291968334) },
        settlement_contract: felt(900),
        max_rewind_depth: 3,
    }
}

fn checkpoint(l1: u64, l2: u64, root: u64) -> L1HeadCheckpoint {
    L1HeadCheckpoint {
        l1_block_number: l1,
        l1_block_hash: felt(l1 + 5000),
        l2_block_number: l2,
        l2_state_root: felt(root),
    }
}

fn event(l1: u64, l2: u64, root: u64) -> StateUpdateEvent {
    StateUpdateEvent {
        emitter: felt(900),
        l1_block_number: l1,
        l1_block_hash: felt(l1 + 5000),
        l2_block_number: l2,
        l2_state_root: felt(root),
    }
}

#[test]
fn reconciler_applies_consecutive_events_in_order() {
    let cfg = config();
    let mut cp = checkpoint(100, 50, 7);
    let batch = vec![
        Candidate { event: event(101, 51, 8), local_state_root: Some(felt(8)) },
        Candidate { event: event(102, 52, 9), local_state_root: None },
        Candidate { event: event(105, 53, 10), local_state_root: Some(felt(10)) },
    ];
    let r = reconcile_batch(&cfg, &mut cp, &batch);
    assert_eq!(r, Ok(3));
    assert_eq!(cp.l1_block_number, 105);
    assert_eq!(cp.l2_block_number, 53);
    assert_eq!(cp.l2_state_root, felt(10));
}

#[test]
fn reconciler_rejects_l2_gap_and_keeps_checkpoint() {
    let cfg = config();
    let mut cp = checkpoint(100, 50, 7);
    let batch = vec![Candidate { event: event(101, 53, 8), local_state_root: None }];
    let r = reconcile_batch(&cfg, &mut cp, &batch);
    assert_eq!(cp, checkpoint(100, 50, 7));
    match r {
        Err(e) => {
            assert_eq!(e.watcher, WatcherKind::StateUpdate);
            assert_eq!(e.l1_block_number, 101);
            assert_eq!(
                e.kind,
                ErrorKind::Inconsistent(InconsistencyKind::NonConsecutiveL2Block {
                    expected: 51,
                    found: 53,
                })
            );
        }
        Ok(_) => panic!("a gap in l2 block numbers must be fatal"),
    }
}

#[test]
fn reconciler_matching_root_advances() {
    let cfg = config();
    let mut cp = checkpoint(100, 50, 7);
    let cand = Candidate { event: event(101, 51, 8), local_state_root: Some(felt(8)) };
    assert!(validate_state_update(&cfg, &cp, &cand).is_ok());
    apply_state_update(&mut cp, &cand.event);
    assert_eq!(cp.l1_block_number, 101);
    assert_eq!(cp.l2_block_number, 51);
}

#[test]
fn reconciler_mismatching_root_is_fatal() {
    let cfg = config();
    let mut cp = checkpoint(100, 50, 7);
    let batch = vec![Candidate { event: event(101, 51, 8), local_state_root: Some(felt(9)) }];
    let r = reconcile_batch(&cfg, &mut cp, &batch);
    assert_eq!(cp, checkpoint(100, 50, 7));
    assert_eq!(
        r,
        Err(SyncError {
            watcher: WatcherKind::StateUpdate,
            l1_block_number: 101,
            kind: ErrorKind::Inconsistent(InconsistencyKind::StateRootMismatch {
                expected: felt(9),
                found: felt(8),
            }),
        })
    );
}

#[test]
fn reconciler_rejects_wrong_emitter() {
    let cfg = config();
    let mut cp = checkpoint(100, 50, 7);
    let mut bad = event(101, 51, 8);
    bad.emitter = felt(901);
    let r = reconcile_batch(&cfg, &mut cp, &vec![Candidate { event: bad, local_state_root: None }]);
    match r {
        Err(e) => assert_eq!(
            e.kind,
            ErrorKind::Inconsistent(InconsistencyKind::WrongSettlementContract {
                expected: felt(900),
                found: felt(901),
            })
        ),
        Ok(_) => panic!("an event from another contract must be rejected"),
    }
}

#[test]
fn reconciler_rejects_non_advancing_l1_block() {
    let cfg = config();
    let mut cp = checkpoint(100, 50, 7);
    let r =
        reconcile_batch(&cfg, &mut cp, &vec![Candidate { event: event(100, 51, 8), local_state_root: None }]);
    match r {
        Err(e) => assert_eq!(
            e.kind,
            ErrorKind::Inconsistent(InconsistencyKind::NonAdvancingL1Block {
                checkpoint: 100,
                found: 100,
            })
        ),
        Ok(_) => panic!("an event at the checkpoint's l1 block must be rejected"),
    }
}

#[test]
fn reorg_detection_compares_hashes() {
    let cp = checkpoint(100, 50, 7);
    assert!(!detect_reorg(&cp, &felt(5100)));
    assert!(detect_reorg(&cp, &felt(9999)));
}

#[test]
fn rewind_goes_to_last_common_ancestor() {
    let cfg = config();
    let recorded = vec![checkpoint(10, 1, 1), checkpoint(11, 2, 2), checkpoint(12, 3, 3)];
    // the chain still shows the first two hashes; the tip diverged
    let observed = vec![felt(5010), felt(5011), felt(7777)];
    assert_eq!(plan_rewind(&cfg, &recorded, &observed), Ok(1));
}

#[test]
fn rewind_beyond_bound_is_fatal() {
    let mut cfg = config();
    cfg.max_rewind_depth = 1;
    let recorded =
        vec![checkpoint(10, 1, 1), checkpoint(11, 2, 2), checkpoint(12, 3, 3), checkpoint(13, 4, 4)];
    let observed = vec![felt(5010), felt(1), felt(2), felt(3)];
    match plan_rewind(&cfg, &recorded, &observed) {
        Err(e) => assert_eq!(
            e.kind,
            ErrorKind::Inconsistent(InconsistencyKind::ReorgBeyondBound { depth: 3, bound: 1 })
        ),
        Ok(_) => panic!("a rewind deeper than the bound must be fatal"),
    }
}

#[test]
fn rewind_without_ancestor_is_fatal() {
    let cfg = config();
    let recorded = vec![checkpoint(10, 1, 1), checkpoint(11, 2, 2)];
    let observed = vec![felt(1), felt(2)];
    match plan_rewind(&cfg, &recorded, &observed) {
        Err(e) => assert_eq!(e.kind, ErrorKind::Inconsistent(InconsistencyKind::NoCommonAncestor)),
        Ok(_) => panic!("a fully replaced history must be fatal"),
    }
}

#[test]
fn reconciler_step_exits_cleanly_on_cancellation() {
    let cfg = config();
    let mut signal = CancellationSignal::new();
    signal.cancel();
    let mut cp = checkpoint(100, 50, 7);
    let batch = vec![Candidate { event: event(101, 53, 8), local_state_root: None }];
    let r = reconciler_step(&signal, &cfg, &mut cp, &batch);
    assert_eq!(r, Ok(l1_sync::reconciler::ReconcilerStep::ExitCancelled));
    assert_eq!(cp, checkpoint(100, 50, 7));
}

fn message(contract: u64, nonce: u64, l1_block: u64) -> L1ToL2Message {
    L1ToL2Message {
        source_contract: felt(contract),
        nonce,
        payload: vec![felt(nonce), felt(nonce + 1)],
        l1_block_number: l1_block,
        l1_tx_hash: felt(40000 + nonce),
    }
}

#[test]
fn replayed_message_is_submitted_once() {
    let mut state = IngestorState::new(0);
    let m = message(1, 7, 20);
    let planned = plan_batch(&state, vec![m.clone()]);
    assert_eq!(planned.len(), 1);
    let k = key_of(&planned[0]);
    assert_eq!(k, MessageKey { source_contract: felt(1), nonce: 7 });
    record_submission(&mut state, k, 20, SubmissionOutcome::Accepted).unwrap();
    // a replayed log batch re-delivers the same message
    let replanned = plan_batch(&state, vec![m.clone(), m]);
    assert_eq!(replanned.len(), 0);
}

#[test]
fn duplicate_within_batch_is_planned_once() {
    let state = IngestorState::new(0);
    let m = message(1, 7, 20);
    let planned = plan_batch(&state, vec![m.clone(), m]);
    assert_eq!(planned.len(), 1);
}

#[test]
fn batch_is_ordered_by_nonce_per_contract() {
    let state = IngestorState::new(0);
    let batch = vec![message(1, 9, 20), message(1, 7, 20), message(1, 8, 21)];
    let planned = plan_batch(&state, batch);
    let nonces: Vec<u64> = planned.iter().map(|m| m.nonce).collect();
    assert_eq!(nonces, vec![7, 8, 9]);
}

#[test]
fn malformed_message_is_recorded_and_never_retried() {
    let mut state = IngestorState::new(0);
    let m = message(1, 3, 20);
    let k = key_of(&m);
    record_submission(&mut state, k, 20, SubmissionOutcome::RejectedMalformed).unwrap();
    let replanned = plan_batch(&state, vec![m]);
    assert_eq!(replanned.len(), 0);
}

#[test]
fn systemic_pool_failure_records_nothing() {
    let mut state = IngestorState::new(0);
    let m = message(1, 3, 20);
    let k = key_of(&m);
    let r = record_submission(&mut state, k, 20, SubmissionOutcome::SystemicFailure);
    assert_eq!(
        r,
        Err(SyncError {
            watcher: WatcherKind::Messaging,
            l1_block_number: 20,
            kind: ErrorKind::Transient,
        })
    );
    // the message stays due for submission after a retry
    let replanned = plan_batch(&state, vec![m]);
    assert_eq!(replanned.len(), 1);
}

#[test]
fn cursor_never_moves_backwards() {
    let mut state = IngestorState::new(10);
    advance_cursor(&mut state, 15);
    assert_eq!(state.cursor, 15);
    advance_cursor(&mut state, 12);
    assert_eq!(state.cursor, 15);
}

#[test]
fn converted_transaction_keeps_the_message_fields() {
    let m = message(4, 11, 33);
    let t = to_pending_transaction(m.clone());
    assert_eq!(t.source_contract, m.source_contract);
    assert_eq!(t.nonce, m.nonce);
    assert_eq!(t.payload, m.payload);
    assert_eq!(t.l1_tx_hash, m.l1_tx_hash);
}

#[test]
fn ingestor_step_exits_cleanly_on_cancellation() {
    let mut signal = CancellationSignal::new();
    signal.cancel();
    let state = IngestorState::new(0);
    let r = ingestor_step(&signal, &state, vec![message(1, 7, 20)]);
    assert_eq!(r, IngestorStep::ExitCancelled);
}

#[test]
fn alternating_queries_keep_the_last_successful_sample() {
    let mut store = GasPriceStore::new();
    assert_eq!(store.current(), None);
    gas_price_tick(&mut store, GasQueryOutcome::Success { base_fee: 100, blob_fee: Some(7) }, 1);
    gas_price_tick(&mut store, GasQueryOutcome::Failure, 2);
    gas_price_tick(&mut store, GasQueryOutcome::Success { base_fee: 120, blob_fee: None }, 3);
    gas_price_tick(&mut store, GasQueryOutcome::Failure, 4);
    assert_eq!(
        store.current(),
        Some(GasPriceSample { base_fee: 120, blob_fee: None, observed_at: 3 })
    );
}

#[test]
fn failed_query_never_clears_the_sample() {
    let mut store = GasPriceStore::new();
    gas_price_tick(&mut store, GasQueryOutcome::Success { base_fee: 100, blob_fee: None }, 1);
    gas_price_tick(&mut store, GasQueryOutcome::Failure, 2);
    assert_eq!(
        store.current(),
        Some(GasPriceSample { base_fee: 100, blob_fee: None, observed_at: 1 })
    );
}

#[test]
fn tracker_step_exits_cleanly_on_cancellation() {
    let mut signal = CancellationSignal::new();
    signal.cancel();
    let mut store = GasPriceStore::new();
    gas_price_tick(&mut store, GasQueryOutcome::Success { base_fee: 5, blob_fee: None }, 1);
    let before = store.current();
    let r = tracker_step(&signal, &mut store, GasQueryOutcome::Success { base_fee: 9, blob_fee: None }, 2);
    assert_eq!(r, TrackerStep::ExitCancelled);
    assert_eq!(store.current(), before);
}

#[test]
fn join_of_clean_exits_succeeds_and_cancels() {
    let mut signal = CancellationSignal::new();
    let r = orchestrate_outcomes(
        &mut signal,
        false,
        WatcherOutcome::Completed,
        WatcherOutcome::Completed,
        WatcherOutcome::Completed,
    );
    assert_eq!(r, Ok(()));
    assert!(signal.is_cancelled());
}

#[test]
fn first_failure_is_propagated_and_cancels_siblings() {
    let mut signal = CancellationSignal::new();
    let failure = SyncError {
        watcher: WatcherKind::StateUpdate,
        l1_block_number: 44,
        kind: ErrorKind::FatalInfrastructure,
    };
    let r = orchestrate_outcomes(
        &mut signal,
        false,
        WatcherOutcome::Failed(failure),
        WatcherOutcome::Completed,
        WatcherOutcome::Completed,
    );
    assert_eq!(r, Err(failure));
    assert!(signal.is_cancelled());
}

#[test]
fn disabled_gas_price_sync_never_fails_the_join() {
    let mut signal = CancellationSignal::new();
    let failure = SyncError {
        watcher: WatcherKind::GasPrice,
        l1_block_number: 0,
        kind: ErrorKind::Transient,
    };
    let r = orchestrate_outcomes(
        &mut signal,
        true,
        WatcherOutcome::Completed,
        WatcherOutcome::Failed(failure),
        WatcherOutcome::Completed,
    );
    assert_eq!(r, Ok(()));
    assert!(signal.is_cancelled());
}

#[test]
fn backoff_doubles_and_caps() {
    let policy = BackoffPolicy { base_delay_ms: 100, max_delay_ms: 1000, max_attempts: 6 };
    let mut state = BackoffState::new();
    let mut delays = Vec::new();
    while let Some(d) = next_delay(&policy, &mut state) {
        delays.push(d);
    }
    assert_eq!(delays, vec![100, 200, 400, 800, 1000, 1000]);
}

#[test]
fn retry_decision_spares_only_transient_failures() {
    let policy = BackoffPolicy { base_delay_ms: 100, max_delay_ms: 1000, max_attempts: 2 };
    let mut state = BackoffState::new();
    let transient = SyncError {
        watcher: WatcherKind::Messaging,
        l1_block_number: 5,
        kind: ErrorKind::Transient,
    };
    let fatal = SyncError {
        watcher: WatcherKind::Messaging,
        l1_block_number: 5,
        kind: ErrorKind::FatalInfrastructure,
    };
    assert!(!fatal.is_retryable());
    assert!(transient.is_retryable());
    assert_eq!(retry_decision(&fatal, &policy, &mut state), RetryDecision::GiveUp);
    assert_eq!(retry_decision(&transient, &policy, &mut state), RetryDecision::RetryAfter(100));
    assert_eq!(retry_decision(&transient, &policy, &mut state), RetryDecision::RetryAfter(200));
    assert_eq!(retry_decision(&transient, &policy, &mut state), RetryDecision::GiveUp);
}

#[test]
fn cancellation_is_one_way() {
    let mut signal = CancellationSignal::new();
    assert!(!signal.is_cancelled());
    signal.cancel();
    assert!(signal.is_cancelled());
    signal.cancel();
    assert!(signal.is_cancelled());
}
