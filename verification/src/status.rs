//! Lifecycle status of a scraping session.

use vstd::prelude::*;

verus! {

/// The externally visible state of a session.
///
/// A session starts `Idle`, becomes `Running` once the page bridge is
/// attached, and ends in exactly one of the two terminal states:
/// `Completed` on a clean stop, `Failed` when the retry policy around the
/// metrics sink exhausts its attempts.
#[derive(Clone, Copy, Debug, PartialEq, Eq, Structural)]
pub enum ScraperStatus {
    Idle,
    Running,
    Failed,
    Completed,
}

impl ScraperStatus {
    /// The wire name of this status, as the metrics sink expects it.
    pub open spec fn spec_str(self) -> Seq<char> {
        match self {
            ScraperStatus::Idle => "IDLE"@,
            ScraperStatus::Running => "RUNNING"@,
            ScraperStatus::Failed => "FAILED"@,
            ScraperStatus::Completed => "COMPLETED"@,
        }
    }

    /// True of the states a session can never leave.
    pub open spec fn is_terminal(self) -> bool {
        self is Failed || self is Completed
    }

    pub fn as_str(&self) -> (r: &'static str)
        ensures
            r@ == self.spec_str(),
    {
        match self {
            ScraperStatus::Idle => "IDLE",
            ScraperStatus::Running => "RUNNING",
            ScraperStatus::Failed => "FAILED",
            ScraperStatus::Completed => "COMPLETED",
        }
    }
}

} // verus!
