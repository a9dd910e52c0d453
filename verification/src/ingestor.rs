//! The bridge message ingestor.
//!
//! The ingestor scans L1 blocks for bridge message events, deduplicates them
//! against a durable set keyed by `(source_contract, nonce)`, orders each
//! batch by ascending nonce per contract, converts each new message into a
//! pending transaction for the local pool, and marks a key as ingested only
//! once the pool has answered — so a crash can at worst resubmit, never
//! silently drop, and a key is never durably marked twice.

use crate::cancel::CancellationSignal;
use crate::errors::{ErrorKind, SyncError, WatcherKind};
use crate::types::Felt252;
use vstd::prelude::*;

verus! {

/// The dedup and ordering key the L1 bridge contract assigns: unique and
/// strictly increasing per source contract.
#[derive(Clone, Copy, PartialEq, Eq, Structural, Debug)]
pub struct MessageKey {
    pub source_contract: Felt252,
    pub nonce: u64,
}

/// A cross-chain message observed on L1, destined for execution on L2.
#[derive(Clone, PartialEq, Eq, Debug)]
pub struct L1ToL2Message {
    pub source_contract: Felt252,
    pub nonce: u64,
    pub payload: Vec<Felt252>,
    pub l1_block_number: u64,
    pub l1_tx_hash: Felt252,
}

/// The local-pool representation of a converted message. The pool owns it
/// once submitted.
#[derive(Clone, PartialEq, Eq, Debug)]
pub struct PendingTransaction {
    pub source_contract: Felt252,
    pub nonce: u64,
    pub payload: Vec<Felt252>,
    pub l1_tx_hash: Felt252,
}

/// The dedup key of a message.
pub open spec fn spec_key(m: L1ToL2Message) -> MessageKey {
    MessageKey { source_contract: m.source_contract, nonce: m.nonce }
}

/// Reads a message's dedup key.
pub fn key_of(m: &L1ToL2Message) -> (k: MessageKey)
    ensures
        k == spec_key(*m),
{
    MessageKey { source_contract: m.source_contract, nonce: m.nonce }
}

/// Lexicographic order on field elements, by big-endian digits.
pub open spec fn felt_lt(a: Felt252, b: Felt252) -> bool {
    ||| a.d0 < b.d0
    ||| (a.d0 == b.d0 && a.d1 < b.d1)
    ||| (a.d0 == b.d0 && a.d1 == b.d1 && a.d2 < b.d2)
    ||| (a.d0 == b.d0 && a.d1 == b.d1 && a.d2 == b.d2 && a.d3 < b.d3)
}

/// Submission order on keys: by contract, then by ascending nonce, so that
/// messages of one contract are always submitted in nonce order.
pub open spec fn key_lt(a: MessageKey, b: MessageKey) -> bool {
    ||| felt_lt(a.source_contract, b.source_contract)
    ||| (a.source_contract == b.source_contract && a.nonce < b.nonce)
}

/// Law: the submission order is total — two distinct keys are always
/// ordered, and never both ways.
pub proof fn lemma_key_order_total(a: MessageKey, b: MessageKey)
    ensures
        key_lt(a, b) || key_lt(b, a) || a == b,
        key_lt(a, b) ==> !key_lt(b, a) && a != b,
{
}

/// Compares two keys in submission order.
pub fn key_lt_exec(a: &MessageKey, b: &MessageKey) -> (r: bool)
    ensures
        r == key_lt(*a, *b),
{
    if a.source_contract.d0 != b.source_contract.d0 {
        a.source_contract.d0 < b.source_contract.d0
    } else if a.source_contract.d1 != b.source_contract.d1 {
        a.source_contract.d1 < b.source_contract.d1
    } else if a.source_contract.d2 != b.source_contract.d2 {
        a.source_contract.d2 < b.source_contract.d2
    } else if a.source_contract.d3 != b.source_contract.d3 {
        a.source_contract.d3 < b.source_contract.d3
    } else {
        a.nonce < b.nonce
    }
}

/// The durable set of keys already ingested. Dedup correctness rests on it,
/// so failure to access its durable backing is fatal to the watcher.
#[derive(Clone, PartialEq, Eq, Debug)]
pub struct DedupSet {
    pub entries: Vec<MessageKey>,
}

impl DedupSet {
    /// Whether the key has been recorded.
    pub open spec fn spec_contains(self, k: MessageKey) -> bool {
        self.entries@.contains(k)
    }

    /// No key is recorded twice.
    pub open spec fn wf(self) -> bool {
        forall|i: int, j: int|
            0 <= i < j < self.entries@.len() ==> #[trigger] self.entries@[i]
                != #[trigger] self.entries@[j]
    }

    /// An empty set.
    pub fn new() -> (r: DedupSet)
        ensures
            r.wf(),
            forall|k: MessageKey| !r.spec_contains(k),
    {
        DedupSet { entries: Vec::new() }
    }

    /// Membership test.
    pub fn contains(&self, k: &MessageKey) -> (r: bool)
        ensures
            r == self.spec_contains(*k),
    {
        let mut i: usize = 0;
        while i < self.entries.len()
            invariant
                0 <= i <= self.entries@.len(),
                forall|j: int| 0 <= j < i ==> self.entries@[j] != *k,
            decreases self.entries@.len() - i,
        {
            if self.entries[i] == *k {
                return true;
            }
            i = i + 1;
        }
        false
    }

    /// Records a key; recording an already recorded key changes nothing.
    pub fn insert(&mut self, k: MessageKey)
        requires
            old(self).wf(),
        ensures
            final(self).wf(),
            forall|k2: MessageKey|
                final(self).spec_contains(k2) == (old(self).spec_contains(k2) || k2 == k),
    {
        if !self.contains(&k) {
            self.entries.push(k);
            proof {
                let n = old(self).entries@.len() as int;
                assert(self.entries@[n] == k);
                assert forall|k2: MessageKey|
                    self.spec_contains(k2) == (old(self).spec_contains(k2) || k2 == k) by {
                    if old(self).spec_contains(k2) {
                        let w = choose|w: int|
                            0 <= w < old(self).entries@.len() && old(self).entries@[w] == k2;
                        assert(self.entries@[w] == k2);
                    }
                    if self.spec_contains(k2) {
                        let w = choose|w: int|
                            0 <= w < self.entries@.len() && self.entries@[w] == k2;
                        if w < n {
                            assert(old(self).entries@[w] == k2);
                        } else {
                            assert(k2 == k);
                        }
                    }
                }
            }
        }
    }
}

/// The ingestor's own durable state: the last L1 block scanned for bridge
/// messages — a cursor independent of the reconciler's checkpoint, since
/// messages and state updates are different event streams — and the dedup
/// set.
#[derive(Clone, PartialEq, Eq, Debug)]
pub struct IngestorState {
    pub cursor: u64,
    pub ingested: DedupSet,
}

impl IngestorState {
    /// Well-formed: the dedup set records no key twice.
    pub open spec fn wf(self) -> bool {
        self.ingested.wf()
    }

    /// A fresh state scanning from the given L1 block.
    pub fn new(cursor: u64) -> (r: IngestorState)
        ensures
            r.wf(),
            r.cursor == cursor,
            forall|k: MessageKey| !r.ingested.spec_contains(k),
    {
        IngestorState { cursor, ingested: DedupSet::new() }
    }
}

/// Whether a key of the batch is due for submission: observed in the batch
/// and not yet recorded as ingested.
pub open spec fn spec_key_planned(
    state: IngestorState,
    batch: Seq<L1ToL2Message>,
    k: MessageKey,
) -> bool {
    &&& !state.ingested.spec_contains(k)
    &&& exists|i: int| 0 <= i < batch.len() && spec_key(#[trigger] batch[i]) == k
}

/// Whether some element of `v` carries the key.
pub open spec fn spec_has_key(v: Seq<L1ToL2Message>, k: MessageKey) -> bool {
    exists|i: int| 0 <= i < v.len() && spec_key(#[trigger] v[i]) == k
}

/// Finds the position at which a message with key `k` belongs in a batch
/// sorted strictly ascending by key.
fn find_insert_pos(sorted: &Vec<L1ToL2Message>, k: &MessageKey) -> (p: usize)
    ensures
        p <= sorted@.len(),
        forall|j: int| 0 <= j < p ==> !key_lt(*k, spec_key(#[trigger] sorted@[j])),
        p < sorted@.len() ==> key_lt(*k, spec_key(sorted@[p as int])),
{
    let mut p: usize = 0;
    while p < sorted.len()
        invariant
            0 <= p <= sorted@.len(),
            forall|j: int| 0 <= j < p ==> !key_lt(*k, spec_key(#[trigger] sorted@[j])),
        decreases sorted@.len() - p,
    {
        let kp = key_of(&sorted[p]);
        if key_lt_exec(k, &kp) {
            return p;
        }
        p = p + 1;
    }
    p
}

/// Plans one fetched batch for submission: drops every message whose key is
/// already recorded as ingested, keeps one message per key however often a
/// replayed log delivers it, and orders what remains by ascending nonce per
/// source contract. The result is exactly the batch's due keys — each
/// appearing once — in submission order; the state itself is not touched
/// until the pool answers.
pub fn plan_batch(state: &IngestorState, batch: Vec<L1ToL2Message>) -> (r: Vec<L1ToL2Message>)
    ensures
        forall|i: int|
            0 <= i < r@.len() ==> !state.ingested.spec_contains(spec_key(#[trigger] r@[i])),
        forall|i: int, j: int|
            0 <= i < j < r@.len() ==> key_lt(spec_key(#[trigger] r@[i]), spec_key(
                #[trigger] r@[j],
            )),
        forall|i: int| 0 <= i < r@.len() ==> batch@.contains(#[trigger] r@[i]),
        forall|k: MessageKey| spec_key_planned(*state, batch@, k) <==> spec_has_key(r@, k),
{
    let ghost batch0 = batch@;
    let mut rest = batch;
    let mut picked: Vec<L1ToL2Message> = Vec::new();
    let ghost mut done: int = 0;
    while rest.len() > 0
        invariant
            0 <= done <= batch0.len(),
            rest@ =~= batch0.skip(done),
            forall|i: int|
                0 <= i < picked@.len() ==> !state.ingested.spec_contains(
                    spec_key(#[trigger] picked@[i]),
                ),
            forall|i: int, j: int|
                0 <= i < j < picked@.len() ==> spec_key(#[trigger] picked@[i]) != spec_key(
                    #[trigger] picked@[j],
                ),
            forall|i: int| 0 <= i < picked@.len() ==> batch0.contains(#[trigger] picked@[i]),
            forall|k: MessageKey|
                spec_key_planned(*state, batch0.take(done), k) <==> spec_has_key(picked@, k),
        decreases rest@.len(),
    {
        let m = rest.remove(0);
        proof {
            assert(m == batch0[done]);
            assert(batch0.skip(done).remove(0) =~= batch0.skip(done + 1));
        }
        let k = key_of(&m);
        let in_store = state.ingested.contains(&k);
        let mut in_picked = false;
        let mut i: usize = 0;
        while i < picked.len()
            invariant
                0 <= i <= picked@.len(),
                k == spec_key(m),
                in_picked == exists|j: int| 0 <= j < i && spec_key(#[trigger] picked@[j]) == k,
            decreases picked@.len() - i,
        {
            let ki = key_of(&picked[i]);
            if ki == k {
                in_picked = true;
            }
            i = i + 1;
        }
        let ghost picked_pre = picked@;
        if !in_store && !in_picked {
            picked.push(m);
        }
        proof {
            let cur = batch0.take(done + 1);
            let prev = batch0.take(done);
            assert(cur.drop_last() =~= prev);
            assert(cur.last() == batch0[done]);
            assert(cur[done] == batch0[done]);
            assert forall|k2: MessageKey|
                spec_key_planned(*state, cur, k2) <==> spec_has_key(picked@, k2) by {
                if spec_key_planned(*state, cur, k2) {
                    let w = choose|w: int| 0 <= w < cur.len() && spec_key(#[trigger] cur[w]) == k2;
                    if w < done {
                        assert(prev[w] == cur[w]);
                        assert(spec_key_planned(*state, prev, k2));
                        assert(spec_has_key(picked_pre, k2));
                        let v = choose|v: int|
                            0 <= v < picked_pre.len() && spec_key(#[trigger] picked_pre[v]) == k2;
                        assert(picked@[v] == picked_pre[v]);
                        assert(spec_key(picked@[v]) == k2);
                        assert(spec_has_key(picked@, k2));
                    } else {
                        assert(k2 == k);
                        if in_picked {
                            let v = choose|v: int|
                                0 <= v < picked_pre.len() && spec_key(
                                    #[trigger] picked_pre[v],
                                ) == k;
                            assert(picked@[v] == picked_pre[v]);
                            assert(spec_has_key(picked@, k2));
                        } else {
                            assert(picked@[picked_pre.len() as int] == m);
                            assert(spec_has_key(picked@, k2));
                        }
                    }
                }
                if spec_has_key(picked@, k2) {
                    let w = choose|w: int|
                        0 <= w < picked@.len() && spec_key(#[trigger] picked@[w]) == k2;
                    if w < picked_pre.len() {
                        assert(picked_pre[w] == picked@[w]);
                        assert(spec_has_key(picked_pre, k2));
                        assert(spec_key_planned(*state, prev, k2));
                        let v = choose|v: int|
                            0 <= v < prev.len() && spec_key(#[trigger] prev[v]) == k2;
                        assert(cur[v] == prev[v]);
                        assert(spec_key_planned(*state, cur, k2));
                    } else {
                        assert(picked@[w] == m);
                        assert(k2 == k);
                        assert(spec_key(cur[done]) == k);
                        assert(spec_key_planned(*state, cur, k2));
                    }
                }
            }
            done = done + 1;
        }
    }
    proof {
        assert(batch0.take(done) =~= batch0);
    }
    let mut sorted: Vec<L1ToL2Message> = Vec::new();
    while picked.len() > 0
        invariant
            forall|i: int|
                0 <= i < sorted@.len() ==> !state.ingested.spec_contains(
                    spec_key(#[trigger] sorted@[i]),
                ),
            forall|i: int|
                0 <= i < picked@.len() ==> !state.ingested.spec_contains(
                    spec_key(#[trigger] picked@[i]),
                ),
            forall|i: int, j: int|
                0 <= i < j < sorted@.len() ==> key_lt(spec_key(#[trigger] sorted@[i]), spec_key(
                    #[trigger] sorted@[j],
                )),
            forall|i: int, j: int|
                0 <= i < j < picked@.len() ==> spec_key(#[trigger] picked@[i]) != spec_key(
                    #[trigger] picked@[j],
                ),
            forall|i: int, j: int|
                0 <= i < sorted@.len() && 0 <= j < picked@.len() ==> spec_key(
                    #[trigger] sorted@[i],
                ) != spec_key(#[trigger] picked@[j]),
            forall|i: int| 0 <= i < sorted@.len() ==> batch0.contains(#[trigger] sorted@[i]),
            forall|i: int| 0 <= i < picked@.len() ==> batch0.contains(#[trigger] picked@[i]),
            forall|k: MessageKey|
                spec_key_planned(*state, batch0, k) <==> (spec_has_key(sorted@, k) || spec_has_key(
                    picked@,
                    k,
                )),
        decreases picked@.len(),
    {
        let ghost picked_before = picked@;
        let m = picked.remove(0);
        proof {
            assert(m == picked_before[0]);
            assert(picked@ =~= picked_before.skip(1));
        }
        let k = key_of(&m);
        let p = find_insert_pos(&sorted, &k);
        let ghost sorted_before = sorted@;
        sorted.insert(p, m);
        proof {
            assert(sorted@ =~= sorted_before.insert(p as int, m));
            assert forall|j: int| 0 <= j < p implies key_lt(
                spec_key(sorted_before[j]),
                k,
            ) by {
                lemma_key_order_total(k, spec_key(sorted_before[j]));
            }
            assert forall|i: int, j: int| 0 <= i < j < sorted@.len() implies key_lt(
                spec_key(#[trigger] sorted@[i]),
                spec_key(#[trigger] sorted@[j]),
            ) by {
                if j < p {
                    assert(sorted@[i] == sorted_before[i]);
                    assert(sorted@[j] == sorted_before[j]);
                } else if i < p && j == p {
                    assert(sorted@[i] == sorted_before[i]);
                    assert(sorted@[j] == m);
                } else if i < p && j > p {
                    assert(sorted@[i] == sorted_before[i]);
                    assert(sorted@[j] == sorted_before[j - 1]);
                    if p < sorted_before.len() {
                        lemma_key_order_total(k, spec_key(sorted_before[j - 1]));
                    }
                } else if i == p {
                    assert(sorted@[i] == m);
                    assert(sorted@[j] == sorted_before[j - 1]);
                } else {
                    assert(sorted@[i] == sorted_before[i - 1]);
                    assert(sorted@[j] == sorted_before[j - 1]);
                }
            }
            assert forall|k2: MessageKey|
                spec_key_planned(*state, batch0, k2) <==> (spec_has_key(sorted@, k2)
                    || spec_has_key(picked@, k2)) by {
                if spec_has_key(sorted@, k2) {
                    let w = choose|w: int| 0 <= w < sorted@.len() && spec_key(sorted@[w]) == k2;
                    if w < p {
                        assert(sorted_before[w] == sorted@[w]);
                        assert(spec_has_key(sorted_before, k2));
                    } else if w == p {
                        assert(spec_key(picked_before[0]) == k2);
                        assert(spec_has_key(picked_before, k2));
                    } else {
                        assert(sorted_before[w - 1] == sorted@[w]);
                        assert(spec_has_key(sorted_before, k2));
                    }
                }
                if spec_has_key(picked@, k2) {
                    let w = choose|w: int| 0 <= w < picked@.len() && spec_key(picked@[w]) == k2;
                    assert(picked@[w] == picked_before[w + 1]);
                    assert(spec_has_key(picked_before, k2));
                }
                if spec_has_key(sorted_before, k2) {
                    let w = choose|w: int|
                        0 <= w < sorted_before.len() && spec_key(sorted_before[w]) == k2;
                    if w < p {
                        assert(spec_key(sorted@[w]) == k2);
                    } else {
                        assert(spec_key(sorted@[w + 1]) == k2);
                    }
                    assert(spec_has_key(sorted@, k2));
                }
                if spec_has_key(picked_before, k2) {
                    let w = choose|w: int|
                        0 <= w < picked_before.len() && spec_key(picked_before[w]) == k2;
                    if w == 0 {
                        assert(spec_key(sorted@[p as int]) == k2);
                        assert(spec_has_key(sorted@, k2));
                    } else {
                        assert(spec_key(picked@[w - 1]) == k2);
                        assert(spec_has_key(picked@, k2));
                    }
                }
            }
        }
    }
    sorted
}

/// Converts a deduplicated message into its pool representation. Ownership
/// of the payload moves to the transaction, which the pool will own once
/// submitted.
pub fn to_pending_transaction(m: L1ToL2Message) -> (t: PendingTransaction)
    ensures
        t.source_contract == m.source_contract,
        t.nonce == m.nonce,
        t.payload == m.payload,
        t.l1_tx_hash == m.l1_tx_hash,
{
    PendingTransaction {
        source_contract: m.source_contract,
        nonce: m.nonce,
        payload: m.payload,
        l1_tx_hash: m.l1_tx_hash,
    }
}

/// How the pool answered one submission.
#[derive(Clone, Copy, PartialEq, Eq, Structural, Debug)]
pub enum SubmissionOutcome {
    /// The pool accepted the transaction and owns it now.
    Accepted,
    /// The pool rejected the message for its own shape (malformed payload,
    /// unsupported version): dropped, recorded so it is never retried.
    RejectedMalformed,
    /// The pool itself failed; nothing is recorded, so the message is
    /// submitted again after a retry.
    SystemicFailure,
}

/// Records the pool's answer for one key. An accepted — or malformed, hence
/// never-to-be-retried — message is durably marked as ingested only now,
/// after the pool answered, keeping delivery at-least-once and durable
/// marking at-most-once. A systemic pool failure records nothing and is
/// surfaced as a transient error.
pub fn record_submission(
    state: &mut IngestorState,
    k: MessageKey,
    l1_block_number: u64,
    outcome: SubmissionOutcome,
) -> (r: Result<(), SyncError>)
    requires
        old(state).wf(),
    ensures
        final(state).wf(),
        final(state).cursor == old(state).cursor,
        outcome != SubmissionOutcome::SystemicFailure ==> {
            &&& r is Ok
            &&& forall|k2: MessageKey|
                final(state).ingested.spec_contains(k2) == (old(state).ingested.spec_contains(k2)
                    || k2 == k)
        },
        outcome == SubmissionOutcome::SystemicFailure ==> {
            &&& *final(state) == *old(state)
            &&& r == Err::<(), SyncError>(
                SyncError {
                    watcher: WatcherKind::Messaging,
                    l1_block_number,
                    kind: ErrorKind::Transient,
                },
            )
        },
{
    match outcome {
        SubmissionOutcome::Accepted | SubmissionOutcome::RejectedMalformed => {
            self_insert(state, k);
            Ok(())
        },
        SubmissionOutcome::SystemicFailure => Err(SyncError {
            watcher: WatcherKind::Messaging,
            l1_block_number,
            kind: ErrorKind::Transient,
        }),
    }
}

/// Records a key in the state's dedup set.
fn self_insert(state: &mut IngestorState, k: MessageKey)
    requires
        old(state).wf(),
    ensures
        final(state).wf(),
        final(state).cursor == old(state).cursor,
        forall|k2: MessageKey|
            final(state).ingested.spec_contains(k2) == (old(state).ingested.spec_contains(k2)
                || k2 == k),
{
    state.ingested.insert(k);
}

/// Advances the scanned-block cursor once every message of the scanned
/// range has been recorded; the cursor never moves backwards.
pub fn advance_cursor(state: &mut IngestorState, scanned_to: u64)
    ensures
        final(state).ingested == old(state).ingested,
        final(state).cursor == if scanned_to > old(state).cursor {
            scanned_to
        } else {
            old(state).cursor
        },
{
    if scanned_to > state.cursor {
        state.cursor = scanned_to;
    }
}

/// What one iteration of the ingestor loop did.
#[derive(Clone, PartialEq, Eq, Debug)]
pub enum IngestorStep {
    /// Cancellation was observed; the watcher returns cleanly.
    ExitCancelled,
    /// The batch was planned; these messages are due for submission, in
    /// submission order.
    Planned(Vec<L1ToL2Message>),
}

/// One iteration of the ingestor loop. Cancellation is checked at the
/// iteration boundary: when it is set the ingestor exits at once, cleanly
/// and without planning any submission; otherwise the fetched batch is
/// deduplicated and ordered for submission.
pub fn ingestor_step(
    signal: &CancellationSignal,
    state: &IngestorState,
    batch: Vec<L1ToL2Message>,
) -> (r: IngestorStep)
    ensures
        signal.spec_is_cancelled() ==> r == IngestorStep::ExitCancelled,
        !signal.spec_is_cancelled() ==> (r matches IngestorStep::Planned(v) && forall|k: MessageKey|
            spec_key_planned(*state, batch@, k) <==> spec_has_key(v@, k)),
{
    if signal.is_cancelled() {
        IngestorStep::ExitCancelled
    } else {
        IngestorStep::Planned(plan_batch(state, batch))
    }
}

/// Law: a key recorded as ingested is never planned again — however often a
/// replayed log batch re-delivers the message, the pool is handed at most
/// one submission per key.
pub proof fn lemma_recorded_key_never_replanned(
    s: IngestorState,
    batch: Seq<L1ToL2Message>,
    k: MessageKey,
)
    requires
        s.ingested.spec_contains(k),
    ensures
        !spec_key_planned(s, batch, k),
{
}

/// Law: after one submission of key `k` is recorded — whatever the pool
/// answered short of a systemic failure — no later batch plans `k` again.
/// `s1` is any state whose recorded keys are those of `s0` plus `k`, as
/// `record_submission` leaves behind.
pub proof fn lemma_duplicate_delivery_not_replanned(
    s0: IngestorState,
    s1: IngestorState,
    batch: Seq<L1ToL2Message>,
    k: MessageKey,
)
    requires
        forall|k2: MessageKey|
            s1.ingested.spec_contains(k2) == (s0.ingested.spec_contains(k2) || k2 == k),
    ensures
        !spec_key_planned(s1, batch, k),
{
}

} // verus!
