//! Bounded exponential backoff, shared by the reconciler and the ingestor.
//!
//! A transient failure is retried after a delay that doubles with each
//! attempt, capped at a configured maximum; past a configured ceiling of
//! attempts the failure is no longer retried and is surfaced to the
//! orchestrator instead. The delay wait is performed by the caller, which
//! keeps it interruptible by cancellation.

use crate::errors::{ErrorKind, SyncError};
use vstd::prelude::*;

verus! {

/// Two to the given power.
pub open spec fn spec_pow2(n: nat) -> nat
    decreases n,
{
    if n == 0 {
        1
    } else {
        2 * spec_pow2((n - 1) as nat)
    }
}

/// The delay before retry number `n` (counted from zero): the base delay
/// doubled `n` times, capped at the maximum.
pub open spec fn spec_delay(base_ms: u64, max_ms: u64, n: nat) -> int {
    if base_ms * spec_pow2(n) <= max_ms {
        base_ms * spec_pow2(n)
    } else {
        max_ms as int
    }
}

/// Static backoff configuration.
#[derive(Clone, Copy, PartialEq, Eq, Structural, Debug)]
pub struct BackoffPolicy {
    pub base_delay_ms: u64,
    pub max_delay_ms: u64,
    pub max_attempts: u32,
}

/// How many retries have been spent against the current failure.
#[derive(Clone, Copy, PartialEq, Eq, Structural, Debug)]
pub struct BackoffState {
    pub attempts: u32,
}

impl BackoffState {
    /// A fresh counter; also used to reset after a success.
    pub fn new() -> (r: BackoffState)
        ensures
            r.attempts == 0,
    {
        BackoffState { attempts: 0 }
    }
}

/// Yields the next capped, exponentially grown delay, or `None` once the
/// ceiling of attempts is spent.
pub fn next_delay(policy: &BackoffPolicy, state: &mut BackoffState) -> (r: Option<u64>)
    ensures
        old(state).attempts >= policy.max_attempts ==> r is None && *final(state) == *old(state),
        old(state).attempts < policy.max_attempts ==> {
            &&& final(state).attempts == old(state).attempts + 1
            &&& r == Some(
                spec_delay(
                    policy.base_delay_ms,
                    policy.max_delay_ms,
                    old(state).attempts as nat,
                ) as u64,
            )
        },
{
    if state.attempts >= policy.max_attempts {
        return None;
    }
    let n = state.attempts;
    let mut d: u64 = if policy.base_delay_ms <= policy.max_delay_ms {
        policy.base_delay_ms
    } else {
        policy.max_delay_ms
    };
    let mut i: u32 = 0;
    proof {
        assert(spec_pow2(0) == 1);
        assert(policy.base_delay_ms as int * 1 == policy.base_delay_ms as int);
    }
    while i < n
        invariant
            0 <= i <= n,
            d == spec_delay(policy.base_delay_ms, policy.max_delay_ms, i as nat),
        decreases n - i,
    {
        let ghost b = policy.base_delay_ms as int;
        let ghost m = policy.max_delay_ms as int;
        let ghost p = spec_pow2(i as nat) as int;
        proof {
            assert(spec_pow2((i + 1) as nat) == 2 * spec_pow2(i as nat));
            assert(b * (2 * p) == 2 * (b * p)) by (nonlinear_arith);
            assert(p >= 1) by {
                lemma_pow2_pos(i as nat);
            }
        }
        if d <= policy.max_delay_ms / 2 {
            proof {
                if b * p <= m {
                    assert(d == b * p);
                } else {
                    assert(d == m);
                    assert(m <= m / 2 ==> m == 0);
                    assert(2 * (b * p) > 2 * m >= m) by {
                        assert(b * p > m);
                    }
                }
            }
            d = d * 2;
        } else {
            proof {
                if b * p <= m {
                    assert(d == b * p);
                    assert(2 * (b * p) > m);
                } else {
                    assert(d == m);
                    assert(2 * (b * p) >= b * p > m) by {
                        assert(b * p >= 0);
                    }
                }
            }
            d = policy.max_delay_ms;
        }
        i = i + 1;
    }
    state.attempts = state.attempts + 1;
    Some(d)
}

/// Two raised to any power is positive.
pub proof fn lemma_pow2_pos(n: nat)
    ensures
        spec_pow2(n) >= 1,
    decreases n,
{
    if n > 0 {
        lemma_pow2_pos((n - 1) as nat);
    }
}

/// What to do with a failed watcher iteration.
#[derive(Clone, Copy, PartialEq, Eq, Structural, Debug)]
pub enum RetryDecision {
    /// Wait this many milliseconds — interruptibly — and try again.
    RetryAfter(u64),
    /// Stop retrying and surface the error.
    GiveUp,
}

/// Classifies a failure against the backoff budget: only transient failures
/// are retried, and only while the ceiling of attempts is not spent; every
/// other failure — and a transient one past the ceiling — is surfaced.
pub fn retry_decision(
    error: &SyncError,
    policy: &BackoffPolicy,
    state: &mut BackoffState,
) -> (r: RetryDecision)
    ensures
        error.kind != ErrorKind::Transient ==> r == RetryDecision::GiveUp && *final(state) == *old(
            state,
        ),
        error.kind == ErrorKind::Transient && old(state).attempts >= policy.max_attempts ==> r
            == RetryDecision::GiveUp && *final(state) == *old(state),
        error.kind == ErrorKind::Transient && old(state).attempts < policy.max_attempts ==> {
            &&& final(state).attempts == old(state).attempts + 1
            &&& r == RetryDecision::RetryAfter(
                spec_delay(
                    policy.base_delay_ms,
                    policy.max_delay_ms,
                    old(state).attempts as nat,
                ) as u64,
            )
        },
{
    if !error.is_retryable() {
        return RetryDecision::GiveUp;
    }
    match next_delay(policy, state) {
        Some(d) => RetryDecision::RetryAfter(d),
        None => RetryDecision::GiveUp,
    }
}

} // verus!
