//! The refresh scheduler's decision logic. The host application runs the
//! loop — fetch, act, sleep — and asks this function what one cycle's
//! outcome means: whether to install the fetched flags, whether to signal
//! first readiness, and what the readiness state becomes.

use vstd::prelude::*;

verus! {

/// What one refresh cycle does.
pub struct PollOutcome {
    /// Replace the store's contents with the fetched flag set.
    pub install: bool,
    /// Fire the one-time readiness signal.
    pub signal_ready: bool,
    /// Whether readiness has been signaled after this cycle.
    pub ready_after: bool,
}

/// Decides one refresh cycle: a successful fetch installs its result and,
/// the first time only, signals readiness; a failed fetch changes nothing
/// and is retried identically next interval.
pub fn poll_step(ready_signaled: bool, fetch_succeeded: bool) -> (r: PollOutcome)
    ensures
        r.install == fetch_succeeded,
        r.signal_ready == (fetch_succeeded && !ready_signaled),
        r.ready_after == (ready_signaled || fetch_succeeded),
{
    PollOutcome {
        install: fetch_succeeded,
        signal_ready: fetch_succeeded && !ready_signaled,
        ready_after: ready_signaled || fetch_succeeded,
    }
}

} // verus!
