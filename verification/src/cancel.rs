//! The shared cancellation signal.
//!
//! One signal is shared by reference across all watchers. It transitions at
//! most once, from live to cancelled, and never resets; every watcher checks
//! it at each iteration boundary and returns cleanly when it is set.

use vstd::prelude::*;

verus! {

/// Process-wide cancellation signal.
#[derive(Clone, Copy, PartialEq, Eq, Structural, Debug)]
pub struct CancellationSignal {
    pub cancelled: bool,
}

impl CancellationSignal {
    /// Whether the signal has been cancelled.
    pub open spec fn spec_is_cancelled(self) -> bool {
        self.cancelled
    }

    /// A fresh, live signal.
    pub fn new() -> (r: CancellationSignal)
        ensures
            !r.spec_is_cancelled(),
    {
        CancellationSignal { cancelled: false }
    }

    /// Reads the signal.
    pub fn is_cancelled(&self) -> (r: bool)
        ensures
            r == self.spec_is_cancelled(),
    {
        self.cancelled
    }

    /// Cancels the signal. The transition is one-way: once set, the signal
    /// stays cancelled whoever calls this again.
    pub fn cancel(&mut self)
        ensures
            final(self).spec_is_cancelled(),
    {
        self.cancelled = true;
    }
}

} // verus!
