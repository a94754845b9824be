//! The resilience policy around the metrics sink.
//!
//! A metrics push that fails is retried with exponential backoff: the
//! first failure waits one second, the next twice that, and so on.  When
//! `MAX_METRICS_ATTEMPTS` pushes in a row have failed, the policy gives
//! up -- the backend is treated as unreachable and the session must end.
//! Any success resets the policy, so isolated failures never accumulate.

use vstd::prelude::*;

verus! {

/// Consecutive failed pushes after which the policy gives up.
pub const MAX_METRICS_ATTEMPTS: u64 = 3;

/// The wait after the first failed push, in seconds.
pub const INITIAL_BACKOFF_SECS: u64 = 1;

/// Two to the `n`-th power.
pub open spec fn pow2(n: nat) -> nat
    decreases n,
{
    if n == 0 {
        1
    } else {
        2 * pow2((n - 1) as nat)
    }
}

/// What to do after a failed push: wait and try again, or give up.
#[derive(Clone, Copy, Debug, PartialEq, Eq, Structural)]
pub enum RetryAction {
    Backoff(u64),
    GiveUp,
}

/// The retry state: how many pushes in a row have failed, and how long
/// the next wait would be.
pub struct RetryPolicy {
    attempts: u64,
    next_backoff_secs: u64,
}

impl RetryPolicy {
    /// Consecutive failures so far.
    pub closed spec fn attempts(self) -> u64 {
        self.attempts
    }

    /// The wait the next failure will impose.
    pub closed spec fn next_backoff_secs(self) -> u64 {
        self.next_backoff_secs
    }

    /// The backoff doubles with each failure, starting at
    /// `INITIAL_BACKOFF_SECS`.
    pub open spec fn wf(self) -> bool {
        &&& self.attempts() <= MAX_METRICS_ATTEMPTS
        &&& self.next_backoff_secs() == INITIAL_BACKOFF_SECS * pow2(self.attempts() as nat)
    }

    /// A fresh policy: no failures, next wait one second.
    pub fn new() -> (p: RetryPolicy)
        ensures
            p.wf(),
            p.attempts() == 0,
            p.next_backoff_secs() == INITIAL_BACKOFF_SECS,
    {
        RetryPolicy { attempts: 0, next_backoff_secs: INITIAL_BACKOFF_SECS }
    }

    /// True once the policy has given up; no further push is attempted.
    pub fn exhausted(&self) -> (r: bool)
        ensures
            r == (self.attempts() >= MAX_METRICS_ATTEMPTS),
    {
        self.attempts >= MAX_METRICS_ATTEMPTS
    }

    /// A successful push: the failure streak is over, the policy resets.
    pub fn on_success(&mut self)
        ensures
            final(self).wf(),
            final(self).attempts() == 0,
            final(self).next_backoff_secs() == INITIAL_BACKOFF_SECS,
    {
        self.attempts = 0;
        self.next_backoff_secs = INITIAL_BACKOFF_SECS;
    }

    /// A failed push.  Before the cap, the caller is told to wait the
    /// current backoff and try again, and the next wait doubles.  At the
    /// cap the policy gives up for good.
    pub fn on_failure(&mut self) -> (a: RetryAction)
        requires
            old(self).wf(),
            old(self).attempts() < MAX_METRICS_ATTEMPTS,
        ensures
            final(self).wf(),
            final(self).attempts() == old(self).attempts() + 1,
            old(self).attempts() + 1 < MAX_METRICS_ATTEMPTS ==> a == RetryAction::Backoff(
                old(self).next_backoff_secs(),
            ),
            old(self).attempts() + 1 == MAX_METRICS_ATTEMPTS ==> a == RetryAction::GiveUp,
    {
        proof {
            assert(pow2(0) == 1);
            assert(pow2(1) == 2);
            assert(pow2(2) == 4);
            assert(pow2(3) == 8);
        }
        self.attempts = self.attempts + 1;
        if self.attempts >= MAX_METRICS_ATTEMPTS {
            self.next_backoff_secs = self.next_backoff_secs * 2;
            RetryAction::GiveUp
        } else {
            let wait = self.next_backoff_secs;
            self.next_backoff_secs = self.next_backoff_secs * 2;
            RetryAction::Backoff(wait)
        }
    }
}

} // verus!
