//! The session controller's state machine.
//!
//! The controller owns the running flag and the lifecycle status, and
//! applies the retry policy to every metrics-push result.  The flag is
//! cleared from exactly two places: an external shutdown signal, and the
//! retry policy exhausting its attempts -- the latter is the only way to
//! reach `Failed`.  A stop without fatal error completes the session,
//! and the final `Completed` push is owed unless the session failed.

use vstd::prelude::*;

use crate::retry::RetryAction;
use crate::retry::RetryPolicy;
use crate::retry::MAX_METRICS_ATTEMPTS;
use crate::status::ScraperStatus;

verus! {

/// The lifecycle state of one scraping session.
pub struct Session {
    pub status: ScraperStatus,
    pub running: bool,
    pub retry: RetryPolicy,
}

impl Session {
    /// The retry state is sound, a failed session no longer runs, and a
    /// session that has not yet failed has attempts to spare.
    pub open spec fn wf(self) -> bool {
        &&& self.retry.wf()
        &&& self.status is Failed ==> !self.running
        &&& !(self.status is Failed) ==> self.retry.attempts() < MAX_METRICS_ATTEMPTS
    }

    /// A fresh session: idle, running flag set, retry policy fresh.
    pub fn new() -> (s: Session)
        ensures
            s.wf(),
            s.status is Idle,
            s.running,
            s.retry.attempts() == 0,
    {
        Session { status: ScraperStatus::Idle, running: true, retry: RetryPolicy::new() }
    }

    /// The page bridge is attached and observing: the session runs.
    pub fn start(&mut self)
        requires
            old(self).wf(),
            old(self).status is Idle,
        ensures
            final(self).wf(),
            final(self).status is Running,
            final(self).running == old(self).running,
            final(self).retry == old(self).retry,
    {
        self.status = ScraperStatus::Running;
    }

    /// An external shutdown signal: clear the running flag, nothing else.
    pub fn on_shutdown_signal(&mut self)
        requires
            old(self).wf(),
        ensures
            final(self).wf(),
            !final(self).running,
            final(self).status == old(self).status,
            final(self).retry == old(self).retry,
    {
        self.running = false;
    }

    /// Applies one metrics-push result.
    ///
    /// A success resets the retry policy and changes nothing else, so a
    /// lone failure followed by a success never stops the session.  A
    /// failure before the attempt cap asks the caller to wait the
    /// current backoff and push again.  The failure that reaches the cap
    /// is fatal: the session fails and the running flag clears.
    pub fn on_metrics_result(&mut self, pushed: bool) -> (a: Option<RetryAction>)
        requires
            old(self).wf(),
            !(old(self).status is Failed),
        ensures
            final(self).wf(),
            pushed ==> (a is None && final(self).status == old(self).status && final(self).running
                == old(self).running && final(self).retry.attempts() == 0),
            !pushed ==> final(self).retry.attempts() == old(self).retry.attempts() + 1,
            (!pushed && old(self).retry.attempts() + 1 < MAX_METRICS_ATTEMPTS) ==> (a == Some(
                RetryAction::Backoff(old(self).retry.next_backoff_secs()),
            ) && final(self).status == old(self).status && final(self).running == old(
                self,
            ).running),
            (!pushed && old(self).retry.attempts() + 1 == MAX_METRICS_ATTEMPTS) ==> (a == Some(
                RetryAction::GiveUp,
            ) && final(self).status is Failed && !final(self).running),
    {
        if pushed {
            self.retry.on_success();
            None
        } else {
            let a = self.retry.on_failure();
            match a {
                RetryAction::GiveUp => {
                    self.status = ScraperStatus::Failed;
                    self.running = false;
                },
                RetryAction::Backoff(_) => {},
            }
            Some(a)
        }
    }

    /// A stop condition was reached without fatal error: the session
    /// completes.
    pub fn complete(&mut self)
        requires
            old(self).wf(),
            !(old(self).status is Failed),
        ensures
            final(self).wf(),
            final(self).status is Completed,
            final(self).running == old(self).running,
            final(self).retry == old(self).retry,
    {
        self.status = ScraperStatus::Completed;
    }

    /// Whether the final `Completed` metrics push is owed: always, unless
    /// retry exhaustion already drove the session to `Failed`.
    pub fn owes_final_push(&self) -> (r: bool)
        ensures
            r == !(self.status is Failed),
    {
        match self.status {
            ScraperStatus::Failed => false,
            _ => true,
        }
    }
}

} // verus!
