//! The state update reconciler.
//!
//! The reconciler discovers L1-finalized state update events past its
//! checkpoint, validates each candidate against local ledger history, and
//! advances the durable `L1HeadCheckpoint` exactly once per validated event,
//! in order. A gap in L2 block numbers, a wrong emitter or a state root that
//! contradicts the locally materialized state is fatal: the checkpoint must
//! not move past data that cannot be trusted. A reorg rewinds the checkpoint
//! to the last common ancestor, bounded by a configured maximum depth.

use crate::cancel::CancellationSignal;
use crate::errors::{ErrorKind, InconsistencyKind, SyncError, WatcherKind};
use crate::types::{ChainId, Felt252};
use vstd::prelude::*;

verus! {

/// An L1-emitted record committing a new L2 state root at a given L2 block
/// height. `emitter` is the settlement contract the event came from.
#[derive(Clone, Copy, PartialEq, Eq, Structural, Debug)]
pub struct StateUpdateEvent {
    pub emitter: Felt252,
    pub l1_block_number: u64,
    pub l1_block_hash: Felt252,
    pub l2_block_number: u64,
    pub l2_state_root: Felt252,
}

/// A fetched event paired with the locally materialized state root at its
/// L2 block, where that local state is already available.
#[derive(Clone, Copy, PartialEq, Eq, Structural, Debug)]
pub struct Candidate {
    pub event: StateUpdateEvent,
    pub local_state_root: Option<Felt252>,
}

/// The last L1-finalized state update successfully reconciled: the durable
/// sync cursor.
#[derive(Clone, Copy, PartialEq, Eq, Structural, Debug)]
pub struct L1HeadCheckpoint {
    pub l1_block_number: u64,
    pub l1_block_hash: Felt252,
    pub l2_block_number: u64,
    pub l2_state_root: Felt252,
}

/// Static configuration of the reconciler.
#[derive(Clone, Copy, PartialEq, Eq, Structural, Debug)]
pub struct ReconcilerConfig {
    pub chain_id: ChainId,
    pub settlement_contract: Felt252,
    pub max_rewind_depth: u64,
}

/// The checkpoint a validated event advances to.
pub open spec fn spec_checkpoint_of(event: StateUpdateEvent) -> L1HeadCheckpoint {
    L1HeadCheckpoint {
        l1_block_number: event.l1_block_number,
        l1_block_hash: event.l1_block_hash,
        l2_block_number: event.l2_block_number,
        l2_state_root: event.l2_state_root,
    }
}

/// Why a candidate is rejected against a checkpoint, or `None` where it is
/// acceptable: it must come from the settlement contract, lie strictly past
/// the checkpoint on L1, be the checkpoint's exact L2 successor, and agree
/// with the locally materialized root where one is available.
pub open spec fn spec_validate(
    cfg: ReconcilerConfig,
    cp: L1HeadCheckpoint,
    cand: Candidate,
) -> Option<InconsistencyKind> {
    if cand.event.emitter != cfg.settlement_contract {
        Some(InconsistencyKind::WrongSettlementContract {
            expected: cfg.settlement_contract,
            found: cand.event.emitter,
        })
    } else if cand.event.l1_block_number <= cp.l1_block_number {
        Some(InconsistencyKind::NonAdvancingL1Block {
            checkpoint: cp.l1_block_number,
            found: cand.event.l1_block_number,
        })
    } else if cand.event.l2_block_number != cp.l2_block_number + 1 {
        Some(InconsistencyKind::NonConsecutiveL2Block {
            expected: if cp.l2_block_number < u64::MAX {
                (cp.l2_block_number + 1) as u64
            } else {
                0
            },
            found: cand.event.l2_block_number,
        })
    } else if cand.local_state_root matches Some(root) && root != cand.event.l2_state_root {
        Some(InconsistencyKind::StateRootMismatch {
            expected: cand.local_state_root->Some_0,
            found: cand.event.l2_state_root,
        })
    } else {
        None
    }
}

/// Validates one candidate against the checkpoint, without moving it.
pub fn validate_state_update(
    cfg: &ReconcilerConfig,
    cp: &L1HeadCheckpoint,
    cand: &Candidate,
) -> (r: Result<(), SyncError>)
    ensures
        r is Ok <==> spec_validate(*cfg, *cp, *cand) is None,
        r matches Err(e) ==> e == (SyncError {
            watcher: WatcherKind::StateUpdate,
            l1_block_number: cand.event.l1_block_number,
            kind: ErrorKind::Inconsistent(spec_validate(*cfg, *cp, *cand)->Some_0),
        }),
{
    let kind: Option<InconsistencyKind> = if cand.event.emitter != cfg.settlement_contract {
        Some(InconsistencyKind::WrongSettlementContract {
            expected: cfg.settlement_contract,
            found: cand.event.emitter,
        })
    } else if cand.event.l1_block_number <= cp.l1_block_number {
        Some(InconsistencyKind::NonAdvancingL1Block {
            checkpoint: cp.l1_block_number,
            found: cand.event.l1_block_number,
        })
    } else if !(cand.event.l2_block_number >= 1 && cand.event.l2_block_number - 1
        == cp.l2_block_number) {
        Some(InconsistencyKind::NonConsecutiveL2Block {
            expected: if cp.l2_block_number < u64::MAX {
                cp.l2_block_number + 1
            } else {
                // The checkpoint has no representable successor, so no event
                // can name it; the spec-level successor truncates the same way.
                0
            },
            found: cand.event.l2_block_number,
        })
    } else {
        match cand.local_state_root {
            Some(root) => {
                if root != cand.event.l2_state_root {
                    Some(InconsistencyKind::StateRootMismatch {
                        expected: root,
                        found: cand.event.l2_state_root,
                    })
                } else {
                    None
                }
            },
            None => None,
        }
    };
    match kind {
        None => Ok(()),
        Some(k) => Err(SyncError {
            watcher: WatcherKind::StateUpdate,
            l1_block_number: cand.event.l1_block_number,
            kind: ErrorKind::Inconsistent(k),
        }),
    }
}

/// Advances the checkpoint to a validated event. The advance is wholesale:
/// every cursor field comes from the event just applied.
pub fn apply_state_update(cp: &mut L1HeadCheckpoint, event: &StateUpdateEvent)
    ensures
        *final(cp) == spec_checkpoint_of(*event),
{
    *cp = L1HeadCheckpoint {
        l1_block_number: event.l1_block_number,
        l1_block_hash: event.l1_block_hash,
        l2_block_number: event.l2_block_number,
        l2_state_root: event.l2_state_root,
    };
}

/// The result of running a batch of candidates against a checkpoint, in
/// order: the checkpoint after the run, the rejection that stopped it (if
/// any), and how many candidates were applied.
pub open spec fn spec_reconcile(
    cfg: ReconcilerConfig,
    cp: L1HeadCheckpoint,
    cands: Seq<Candidate>,
) -> (L1HeadCheckpoint, Option<InconsistencyKind>, int)
    decreases cands.len(),
{
    if cands.len() == 0 {
        (cp, None, 0)
    } else {
        match spec_validate(cfg, cp, cands[0]) {
            Some(k) => (cp, Some(k), 0),
            None => {
                let rest = spec_reconcile(cfg, spec_checkpoint_of(cands[0].event), cands.skip(1));
                (rest.0, rest.1, rest.2 + 1)
            },
        }
    }
}

/// Runs one fetched batch: validates each candidate in ascending order and
/// advances the checkpoint exactly once per validated event. The first
/// rejection stops the run with an `Inconsistent` error; candidates already
/// applied stand (each was valid on its own), and the rejected one and its
/// successors leave no trace on the checkpoint.
pub fn reconcile_batch(
    cfg: &ReconcilerConfig,
    cp: &mut L1HeadCheckpoint,
    cands: &Vec<Candidate>,
) -> (r: Result<usize, SyncError>)
    ensures
        *final(cp) == spec_reconcile(*cfg, *old(cp), cands@).0,
        r matches Ok(n) ==> n == cands@.len() && spec_reconcile(*cfg, *old(cp), cands@).1 is None,
        r matches Err(e) ==> {
            let (_, stop, n) = spec_reconcile(*cfg, *old(cp), cands@);
            &&& stop matches Some(k) && e == (SyncError {
                watcher: WatcherKind::StateUpdate,
                l1_block_number: cands@[n].event.l1_block_number,
                kind: ErrorKind::Inconsistent(k),
            })
            &&& 0 <= n < cands@.len()
        },
{
    let ghost cp0 = *cp;
    let mut i: usize = 0;
    proof {
        assert(cands@.skip(0) =~= cands@);
    }
    while i < cands.len()
        invariant
            0 <= i <= cands@.len(),
            cp0 == *old(cp),
            spec_reconcile(*cfg, cp0, cands@) == {
                let rest = spec_reconcile(*cfg, *cp, cands@.skip(i as int));
                (rest.0, rest.1, rest.2 + i)
            },
        decreases cands@.len() - i,
    {
        let cand = &cands[i];
        proof {
            assert(cands@.skip(i as int)[0] == cands@[i as int]);
        }
        match validate_state_update(cfg, cp, cand) {
            Ok(()) => {
                apply_state_update(cp, &cand.event);
                proof {
                    assert(cands@.skip(i as int).skip(1) =~= cands@.skip(i + 1));
                }
                i = i + 1;
            },
            Err(e) => {
                proof {
                    let tail = cands@.skip(i as int);
                    assert(tail.len() > 0);
                    assert(spec_reconcile(*cfg, *cp, tail).0 == *cp);
                    assert(spec_reconcile(*cfg, *cp, tail).1 == spec_validate(
                        *cfg,
                        *cp,
                        cands@[i as int],
                    ));
                    assert(spec_reconcile(*cfg, *cp, tail).2 == 0);
                }
                return Err(e);
            },
        }
    }
    proof {
        assert(cands@.skip(i as int).len() == 0);
    }
    Ok(i)
}

/// Law: a batch of events with strictly consecutive L2 block numbers, all
/// from the settlement contract, each strictly advancing on L1 and each
/// agreeing with the local root where one is available, is applied whole:
/// the run rejects nothing, applies once per event in order, and leaves the
/// checkpoint equal to the last event applied.
pub proof fn lemma_consecutive_batch_applies_whole(
    cfg: ReconcilerConfig,
    cp: L1HeadCheckpoint,
    cands: Seq<Candidate>,
)
    requires
        forall|i: int| 0 <= i < cands.len() ==> cands[i].event.emitter == cfg.settlement_contract,
        forall|i: int|
            0 <= i < cands.len() ==> cands[i].event.l2_block_number == cp.l2_block_number + 1 + i,
        cands.len() > 0 ==> cands[0].event.l1_block_number > cp.l1_block_number,
        forall|i: int|
            0 < i < cands.len() ==> #[trigger] cands[i].event.l1_block_number > cands[
                i - 1
            ].event.l1_block_number,
        forall|i: int|
            0 <= i < cands.len() ==> (#[trigger] cands[i].local_state_root matches Some(root)
                ==> root == cands[i].event.l2_state_root),
    ensures
        spec_reconcile(cfg, cp, cands).1 is None,
        spec_reconcile(cfg, cp, cands).2 == cands.len(),
        cands.len() > 0 ==> spec_reconcile(cfg, cp, cands).0 == spec_checkpoint_of(
            cands.last().event,
        ),
        cands.len() == 0 ==> spec_reconcile(cfg, cp, cands).0 == cp,
    decreases cands.len(),
{
    if cands.len() > 0 {
        assert(spec_validate(cfg, cp, cands[0]) is None);
        let cp1 = spec_checkpoint_of(cands[0].event);
        let rest = cands.skip(1);
        assert forall|i: int| 0 <= i < rest.len() implies rest[i].event.l2_block_number
            == cp1.l2_block_number + 1 + i by {
            assert(rest[i] == cands[i + 1]);
        }
        assert forall|i: int| 0 < i < rest.len() implies #[trigger] rest[i].event.l1_block_number
            > rest[i - 1].event.l1_block_number by {
            assert(rest[i] == cands[i + 1]);
            assert(rest[i - 1] == cands[i]);
        }
        if rest.len() > 0 {
            assert(rest[0] == cands[1]);
        }
        lemma_consecutive_batch_applies_whole(cfg, cp1, rest);
        if rest.len() > 0 {
            assert(rest.last() == cands.last());
        }
    }
}

/// Law: forward reconciliation never moves the checkpoint's L1 block number
/// backwards, whatever the batch holds — only an explicit reorg rewind may
/// lower the cursor.
pub proof fn lemma_reconcile_never_rewinds(
    cfg: ReconcilerConfig,
    cp: L1HeadCheckpoint,
    cands: Seq<Candidate>,
)
    ensures
        spec_reconcile(cfg, cp, cands).0.l1_block_number >= cp.l1_block_number,
    decreases cands.len(),
{
    if cands.len() > 0 && spec_validate(cfg, cp, cands[0]) is None {
        lemma_reconcile_never_rewinds(cfg, spec_checkpoint_of(cands[0].event), cands.skip(1));
    }
}

/// Law: a candidate rejected against the checkpoint — in particular one
/// whose L2 block number leaves a gap — stops the run at once: the
/// checkpoint does not move, nothing is applied, and the run reports exactly
/// that rejection.
pub proof fn lemma_rejected_head_leaves_checkpoint(
    cfg: ReconcilerConfig,
    cp: L1HeadCheckpoint,
    cands: Seq<Candidate>,
)
    requires
        cands.len() > 0,
        spec_validate(cfg, cp, cands[0]) is Some,
    ensures
        spec_reconcile(cfg, cp, cands).0 == cp,
        spec_reconcile(cfg, cp, cands).1 == spec_validate(cfg, cp, cands[0]),
        spec_reconcile(cfg, cp, cands).2 == 0,
{
}

/// Whether the hash now observed on L1 at the checkpoint's block number
/// contradicts the checkpoint: a reorg.
pub fn detect_reorg(cp: &L1HeadCheckpoint, observed_hash: &Felt252) -> (r: bool)
    ensures
        r == (*observed_hash != cp.l1_block_hash),
{
    *observed_hash != cp.l1_block_hash
}

/// The last common ancestor: the highest recorded block whose hash still
/// stands on the observed chain.
pub open spec fn spec_last_match(recorded: Seq<L1HeadCheckpoint>, observed: Seq<Felt252>) -> Option<
    int,
>
    decreases recorded.len(),
{
    if recorded.len() == 0 {
        None
    } else if observed.last() == recorded.last().l1_block_hash {
        Some(recorded.len() - 1)
    } else {
        spec_last_match(recorded.drop_last(), observed.drop_last())
    }
}

/// Finds where to rewind after a reorg. `recorded` holds previously
/// reconciled checkpoints in ascending L1 order, `observed` the hash the L1
/// chain now shows at each of those block numbers. The rewind goes to the
/// last common ancestor; a rewind deeper than `max_rewind_depth` recorded
/// entries — or one with no surviving ancestor at all — is a fatal
/// inconsistency that asks for operator intervention, not silent recovery.
pub fn plan_rewind(
    cfg: &ReconcilerConfig,
    recorded: &Vec<L1HeadCheckpoint>,
    observed: &Vec<Felt252>,
) -> (r: Result<usize, SyncError>)
    requires
        recorded@.len() == observed@.len(),
        recorded@.len() > 0,
    ensures
        r matches Ok(i) ==> {
            &&& spec_last_match(recorded@, observed@) == Some(i as int)
            &&& recorded@.len() - 1 - i <= cfg.max_rewind_depth
            &&& observed@[i as int] == recorded@[i as int].l1_block_hash
        },
        r matches Err(e) ==> {
            &&& e.watcher == WatcherKind::StateUpdate
            &&& e.l1_block_number == recorded@.last().l1_block_number
            &&& match spec_last_match(recorded@, observed@) {
                Some(i) => e.kind == ErrorKind::Inconsistent(
                    InconsistencyKind::ReorgBeyondBound {
                        depth: (recorded@.len() - 1 - i) as u64,
                        bound: cfg.max_rewind_depth,
                    },
                ) && recorded@.len() - 1 - i > cfg.max_rewind_depth,
                None => e.kind == ErrorKind::Inconsistent(InconsistencyKind::NoCommonAncestor),
            }
        },
{
    let tip = recorded.len() - 1;
    let mut i: usize = recorded.len();
    proof {
        assert(recorded@.take(recorded@.len() as int) =~= recorded@);
        assert(observed@.take(observed@.len() as int) =~= observed@);
    }
    while i > 0
        invariant
            0 <= i <= recorded@.len(),
            recorded@.len() == observed@.len(),
            recorded@.len() > 0,
            tip == recorded@.len() - 1,
            spec_last_match(recorded@, observed@) == spec_last_match(
                recorded@.take(i as int),
                observed@.take(i as int),
            ),
        decreases i,
    {
        proof {
            assert(recorded@.take(i as int).last() == recorded@[i - 1]);
            assert(observed@.take(i as int).last() == observed@[i - 1]);
            assert(recorded@.take(i as int).drop_last() =~= recorded@.take(i - 1));
            assert(observed@.take(i as int).drop_last() =~= observed@.take(i - 1));
        }
        if observed[i - 1] == recorded[i - 1].l1_block_hash {
            let depth = (tip - (i - 1)) as u64;
            if depth <= cfg.max_rewind_depth {
                return Ok(i - 1);
            } else {
                return Err(SyncError {
                    watcher: WatcherKind::StateUpdate,
                    l1_block_number: recorded[tip].l1_block_number,
                    kind: ErrorKind::Inconsistent(InconsistencyKind::ReorgBeyondBound {
                        depth,
                        bound: cfg.max_rewind_depth,
                    }),
                });
            }
        }
        i = i - 1;
    }
    proof {
        assert(recorded@.take(0).len() == 0);
    }
    Err(SyncError {
        watcher: WatcherKind::StateUpdate,
        l1_block_number: recorded[tip].l1_block_number,
        kind: ErrorKind::Inconsistent(InconsistencyKind::NoCommonAncestor),
    })
}

/// What one iteration of the reconciler loop did.
#[derive(Clone, Copy, PartialEq, Eq, Structural, Debug)]
pub enum ReconcilerStep {
    /// Cancellation was observed; the watcher returns cleanly.
    ExitCancelled,
    /// The batch was applied whole; this many events advanced the checkpoint.
    Applied(usize),
}

/// One iteration of the reconciler loop. Cancellation is checked at the
/// iteration boundary: when it is set the reconciler exits at once, cleanly
/// and without any partial write to the checkpoint; otherwise the fetched
/// batch is reconciled.
pub fn reconciler_step(
    signal: &CancellationSignal,
    cfg: &ReconcilerConfig,
    cp: &mut L1HeadCheckpoint,
    cands: &Vec<Candidate>,
) -> (r: Result<ReconcilerStep, SyncError>)
    ensures
        signal.spec_is_cancelled() ==> r == Ok::<ReconcilerStep, SyncError>(
            ReconcilerStep::ExitCancelled,
        ) && *final(cp) == *old(cp),
        !signal.spec_is_cancelled() ==> {
            &&& *final(cp) == spec_reconcile(*cfg, *old(cp), cands@).0
            &&& r matches Ok(step) ==> step == ReconcilerStep::Applied(cands@.len() as usize)
                && spec_reconcile(*cfg, *old(cp), cands@).1 is None
            &&& r is Err ==> spec_reconcile(*cfg, *old(cp), cands@).1 is Some
        },
{
    if signal.is_cancelled() {
        Ok(ReconcilerStep::ExitCancelled)
    } else {
        match reconcile_batch(cfg, cp, cands) {
            Ok(n) => Ok(ReconcilerStep::Applied(n)),
            Err(e) => Err(e),
        }
    }
}

} // verus!
