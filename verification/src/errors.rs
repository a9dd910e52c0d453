//! Error taxonomy of the synchronization subsystem.
//!
//! A failure is `Transient` (network or timeout, retried with bounded
//! backoff), `Inconsistent` (a state that cannot be trusted: wrong contract,
//! a gap in block numbers, a root mismatch, a reorg past the bound — fatal),
//! `Malformed` (one bad message, logged and skipped, never retried), or
//! `FatalInfrastructure` (the durable store failed — surfaced immediately).
//! The error carries which watcher failed and at which L1 block, so the
//! orchestrator's single returned error is enough to diagnose the failure.

use crate::types::Felt252;
use vstd::prelude::*;

verus! {

/// The watcher a failure came from.
#[derive(Clone, Copy, PartialEq, Eq, Structural, Debug)]
pub enum WatcherKind {
    StateUpdate,
    GasPrice,
    Messaging,
}

/// The precise way a validated history stopped being trustworthy.
#[derive(Clone, Copy, PartialEq, Eq, Structural, Debug)]
pub enum InconsistencyKind {
    /// The event was emitted by a contract other than the configured
    /// settlement contract.
    WrongSettlementContract { expected: Felt252, found: Felt252 },
    /// The event's L1 block does not lie past the checkpoint.
    NonAdvancingL1Block { checkpoint: u64, found: u64 },
    /// The event's L2 block is not the checkpoint's successor.
    NonConsecutiveL2Block { expected: u64, found: u64 },
    /// The committed state root differs from the locally materialized one.
    StateRootMismatch { expected: Felt252, found: Felt252 },
    /// A reorg reaches deeper than the configured maximum rewind.
    ReorgBeyondBound { depth: u64, bound: u64 },
    /// No recorded block survives on the observed chain.
    NoCommonAncestor,
}

/// The four failure classes of the subsystem.
#[derive(Clone, Copy, PartialEq, Eq, Structural, Debug)]
pub enum ErrorKind {
    Transient,
    Inconsistent(InconsistencyKind),
    Malformed,
    FatalInfrastructure,
}

/// A failure, with enough context to diagnose it: the watcher it came from,
/// the L1 block it was processing, and its class.
#[derive(Clone, Copy, PartialEq, Eq, Structural, Debug)]
pub struct SyncError {
    pub watcher: WatcherKind,
    pub l1_block_number: u64,
    pub kind: ErrorKind,
}

impl SyncError {
    /// Whether the failure may be retried with backoff. Only transient
    /// failures are; the other classes are surfaced to the orchestrator.
    pub fn is_retryable(&self) -> (r: bool)
        ensures
            r == (self.kind == ErrorKind::Transient),
    {
        match self.kind {
            ErrorKind::Transient => true,
            _ => false,
        }
    }
}

} // verus!
