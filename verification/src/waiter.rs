//! Waiter: poll a predicate under a wall-clock deadline with bounded
//! back-off.
//!
//! The clock and the sleep live with the caller: each round it reports the
//! elapsed time and what the poll returned, and the waiter decides — resolve,
//! sleep this long and retry, or time out.  The sleep interval starts at
//! 100 ms, backs off, and stays below one second.

use vstd::prelude::*;

verus! {

/// The milliseconds the first retry sleeps.
pub const INITIAL_SLEEP_MS: u64 = 100;

/// The default per-call timeout: beyond typical navigation timings, yet a
/// bound on pathological hangs.
pub const DEFAULT_CALL_TIMEOUT_MS: u64 = 15_000;

/// The receive window of the browser-event fan-out worker; past it the
/// browser is considered dead.
pub const EVENT_RECV_TIMEOUT_MS: u64 = 20_000;

/// How long construction waits for the initial tab to appear.
pub const INITIAL_TAB_TIMEOUT_MS: u64 = 10_000;

/// How long a freshly created tab is awaited after `Target.createTarget`.
pub const NEW_TAB_TIMEOUT_MS: u64 = 20_000;

/// Sleeps never reach one second.
pub const MAX_SLEEP_MS: u64 = 800;

/// What one polling round decided.
pub enum WaitOutcome<T> {
    Resolved(T),
    Pending { sleep_ms: u64 },
    TimedOut,
}

/// A deadline and the current back-off interval.
pub struct Wait {
    pub timeout_ms: u64,
    pub sleep_ms: u64,
}

impl Wait {
    /// The interval stays positive and below one second.
    pub open spec fn wf(self) -> bool {
        0 < self.sleep_ms <= MAX_SLEEP_MS
    }

    /// A waiter with the given deadline and the default initial interval.
    pub fn with_timeout(timeout_ms: u64) -> (r: Wait)
        ensures
            r.wf(),
            r.timeout_ms == timeout_ms,
            r.sleep_ms == INITIAL_SLEEP_MS,
    {
        Wait { timeout_ms, sleep_ms: INITIAL_SLEEP_MS }
    }

    /// Decide one polling round: a poll result resolves; past the deadline
    /// the wait times out; otherwise retry after the current interval, which
    /// backs off by half, capped below one second.
    pub fn until_step<T>(&mut self, elapsed_ms: u64, poll: Option<T>) -> (r: WaitOutcome<T>)
        requires
            old(self).wf(),
        ensures
            final(self).wf(),
            final(self).timeout_ms == old(self).timeout_ms,
            match poll {
                Some(v) => r == WaitOutcome::Resolved(v) && *final(self) == *old(self),
                None => if elapsed_ms >= old(self).timeout_ms {
                    (r is TimedOut) && *final(self) == *old(self)
                } else {
                    &&& r == WaitOutcome::Pending::<T> { sleep_ms: old(self).sleep_ms }
                    &&& 0 < old(self).sleep_ms < 1000
                    &&& final(self).sleep_ms == (if old(self).sleep_ms + old(self).sleep_ms / 2
                        <= MAX_SLEEP_MS {
                        (old(self).sleep_ms + old(self).sleep_ms / 2) as u64
                    } else {
                        MAX_SLEEP_MS
                    })
                },
            },
    {
        match poll {
            Some(v) => WaitOutcome::Resolved(v),
            None => {
                if elapsed_ms >= self.timeout_ms {
                    WaitOutcome::TimedOut
                } else {
                    let s = self.sleep_ms;
                    let grown = s + s / 2;
                    self.sleep_ms = if grown <= MAX_SLEEP_MS {
                        grown
                    } else {
                        MAX_SLEEP_MS
                    };
                    WaitOutcome::Pending { sleep_ms: s }
                }
            },
        }
    }
}

/// The final result of a wait: what the poll resolved to, or `Timeout` when
/// the deadline passed.
pub fn wait_result<T>(r: WaitOutcome<T>) -> (res: Result<T, crate::CdpError>)
    requires
        !(r is Pending),
    ensures
        match r {
            WaitOutcome::Resolved(v) => res == Ok::<T, crate::CdpError>(v),
            WaitOutcome::TimedOut => res == Err::<T, crate::CdpError>(crate::CdpError::Timeout),
            WaitOutcome::Pending { .. } => false,
        },
{
    match r {
        WaitOutcome::Resolved(v) => Ok(v),
        _ => Err(crate::CdpError::Timeout),
    }
}

/// Law: a waiter never asks for a sleep of a second or more, and never
/// sleeps when the poll has resolved or the deadline has passed.
pub proof fn lemma_bounded_sleep<T>(w: Wait, r: WaitOutcome<T>, elapsed_ms: u64, poll: Option<T>)
    requires
        w.wf(),
        match poll {
            Some(v) => r == WaitOutcome::Resolved(v),
            None => if elapsed_ms >= w.timeout_ms {
                r is TimedOut
            } else {
                r == WaitOutcome::Pending::<T> { sleep_ms: w.sleep_ms }
            },
        },
    ensures
        r matches WaitOutcome::Pending { sleep_ms } ==> 0 < sleep_ms < 1000 && elapsed_ms
            < w.timeout_ms && poll is None,
        (r is TimedOut) ==> elapsed_ms >= w.timeout_ms,
        poll matches Some(v) ==> r == WaitOutcome::Resolved(v),
{
}

} // verus!
