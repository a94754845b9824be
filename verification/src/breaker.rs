//! A circuit breaker for outbound calls.
//!
//! The breaker counts failures; at its threshold it opens and fast-fails
//! callers until a reset timeout has passed since the last failure, after
//! which one call may half-open it again.  It is an available resilience
//! primitive beside the retry policy; the dispatch loop itself relies on
//! the bounded retry of `retry`.  Time is passed in by the caller as a
//! monotonic reading in milliseconds.

use vstd::prelude::*;

verus! {

/// Failure-counting breaker state over caller-supplied monotonic time.
pub struct CircuitBreaker {
    pub threshold: u64,
    pub reset_timeout_ms: u64,
    pub failure_count: u64,
    pub closed: bool,
    pub last_failure_ms: u64,
}

impl CircuitBreaker {
    /// A fresh breaker: closed, no failures yet.
    pub fn new(threshold: u64, reset_timeout_ms: u64, now_ms: u64) -> (b: CircuitBreaker)
        ensures
            b.closed,
            b.failure_count == 0,
            b.threshold == threshold,
            b.reset_timeout_ms == reset_timeout_ms,
            b.last_failure_ms == now_ms,
    {
        CircuitBreaker {
            threshold,
            reset_timeout_ms,
            failure_count: 0,
            closed: true,
            last_failure_ms: now_ms,
        }
    }

    /// Whether calls may pass right now.
    pub fn is_closed(&self) -> (r: bool)
        ensures
            r == self.closed,
    {
        self.closed
    }

    /// A call succeeded.  An open breaker whose reset timeout has passed
    /// closes again and forgets its failures; otherwise nothing changes.
    pub fn record_success(&mut self, now_ms: u64)
        requires
            old(self).last_failure_ms <= now_ms,
        ensures
            final(self).threshold == old(self).threshold,
            final(self).reset_timeout_ms == old(self).reset_timeout_ms,
            final(self).last_failure_ms == old(self).last_failure_ms,
            (!old(self).closed && now_ms - old(self).last_failure_ms
                >= old(self).reset_timeout_ms) ==> (final(self).closed
                && final(self).failure_count == 0),
            !(!old(self).closed && now_ms - old(self).last_failure_ms
                >= old(self).reset_timeout_ms) ==> (final(self).closed == old(self).closed
                && final(self).failure_count == old(self).failure_count),
    {
        if !self.closed {
            if now_ms - self.last_failure_ms >= self.reset_timeout_ms {
                self.closed = true;
                self.failure_count = 0;
            }
        }
    }

    /// A call failed.  The count goes up; at the threshold the breaker
    /// opens and remembers when.  Returns whether it is still closed.
    pub fn record_failure(&mut self, now_ms: u64) -> (still_closed: bool)
        requires
            old(self).failure_count < u64::MAX,
        ensures
            final(self).threshold == old(self).threshold,
            final(self).reset_timeout_ms == old(self).reset_timeout_ms,
            final(self).failure_count == old(self).failure_count + 1,
            old(self).failure_count + 1 >= old(self).threshold ==> (!final(self).closed
                && final(self).last_failure_ms == now_ms && !still_closed),
            old(self).failure_count + 1 < old(self).threshold ==> (final(self).closed
                == old(self).closed && final(self).last_failure_ms == old(self).last_failure_ms
                && still_closed),
    {
        self.failure_count = self.failure_count + 1;
        if self.failure_count >= self.threshold {
            self.closed = false;
            self.last_failure_ms = now_ms;
            false
        } else {
            true
        }
    }

    /// Asks whether a guarded call may proceed: an open breaker inside
    /// its reset timeout refuses the call; one past the timeout
    /// half-opens and lets this call through.  After the call, the
    /// caller reports the result through `record_success` or
    /// `record_failure`.
    pub fn allow_request(&mut self, now_ms: u64) -> (allow: bool)
        requires
            old(self).last_failure_ms <= now_ms,
        ensures
            final(self).threshold == old(self).threshold,
            final(self).reset_timeout_ms == old(self).reset_timeout_ms,
            final(self).failure_count == old(self).failure_count,
            final(self).last_failure_ms == old(self).last_failure_ms,
            old(self).closed ==> (allow && final(self).closed),
            (!old(self).closed && now_ms - old(self).last_failure_ms
                < old(self).reset_timeout_ms) ==> (!allow && !final(self).closed),
            (!old(self).closed && now_ms - old(self).last_failure_ms
                >= old(self).reset_timeout_ms) ==> (allow && final(self).closed),
    {
        if !self.closed {
            if now_ms - self.last_failure_ms < self.reset_timeout_ms {
                return false;
            }
            self.closed = true;
        }
        true
    }
}

} // verus!
