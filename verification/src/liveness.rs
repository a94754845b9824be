//! The liveness detector: when to suspect the stream has ended, when to
//! probe, and when to stop.
//!
//! The detector combines three signals: the time since the last chat
//! message, the number of consecutive empty dispatch cycles, and an
//! out-of-band probe that fetches the chat page and looks for its
//! "chat unavailable" marker.  Thirty minutes of silence stop the session
//! unconditionally; an ambiguous probe (failure or timeout) never does.

use vstd::prelude::*;

verus! {

/// Stop unconditionally after this much time without a chat message.
pub const INACTIVITY_LIMIT_MS: u64 = 1800000;

/// Probe once messages have stopped for this long (with the long cooldown).
pub const PROBE_DEADLINE_MS: u64 = 900000;

/// Probe once messages have stopped for this long (with the short cooldown).
pub const PROBE_EARLY_MS: u64 = 300000;

/// The ordinary minimum spacing between two probes.
pub const PROBE_COOLDOWN_LONG_MS: u64 = 60000;

/// The tighter spacing allowed once messages have stopped for a while.
pub const PROBE_COOLDOWN_SHORT_MS: u64 = 30000;

/// Consecutive empty cycles that alone justify a probe.
pub const EMPTY_CYCLES_FOR_PROBE: u64 = 3;

/// What one liveness probe reported.
///
/// A probe that failed or timed out is `Inconclusive`: an ambiguous signal
/// never stops the session by itself.
#[derive(Clone, Copy, Debug, PartialEq, Eq, Structural)]
pub enum ProbeOutcome {
    Ended,
    Active,
    Inconclusive,
}

/// When a probe is due: enough empty cycles, or a long message silence,
/// each guarded by its own spacing from the previous probe.
pub open spec fn spec_probe_due(
    consecutive_empty_cycles: u64,
    since_last_message_ms: u64,
    since_last_probe_ms: u64,
) -> bool {
    ||| (consecutive_empty_cycles >= EMPTY_CYCLES_FOR_PROBE && since_last_probe_ms
        >= PROBE_COOLDOWN_LONG_MS)
    ||| (since_last_message_ms >= PROBE_EARLY_MS && since_last_probe_ms
        >= PROBE_COOLDOWN_SHORT_MS)
    ||| (since_last_message_ms >= PROBE_DEADLINE_MS && since_last_probe_ms
        >= PROBE_COOLDOWN_LONG_MS)
}

/// Decides whether the out-of-band probe should be issued this cycle.
pub fn probe_due(
    consecutive_empty_cycles: u64,
    since_last_message_ms: u64,
    since_last_probe_ms: u64,
) -> (r: bool)
    ensures
        r == spec_probe_due(
            consecutive_empty_cycles,
            since_last_message_ms,
            since_last_probe_ms,
        ),
{
    (consecutive_empty_cycles >= EMPTY_CYCLES_FOR_PROBE && since_last_probe_ms
        >= PROBE_COOLDOWN_LONG_MS) || (since_last_message_ms >= PROBE_EARLY_MS
        && since_last_probe_ms >= PROBE_COOLDOWN_SHORT_MS) || (since_last_message_ms
        >= PROBE_DEADLINE_MS && since_last_probe_ms >= PROBE_COOLDOWN_LONG_MS)
}

/// Classifies what came back from the probe's page fetch.  A fetch that
/// did not complete in time is inconclusive, never a stop signal.
pub fn classify_probe(fetch_completed: bool, marker_present: bool) -> (r: ProbeOutcome)
    ensures
        !fetch_completed ==> r is Inconclusive,
        fetch_completed && marker_present ==> r is Ended,
        fetch_completed && !marker_present ==> r is Active,
{
    if !fetch_completed {
        ProbeOutcome::Inconclusive
    } else if marker_present {
        ProbeOutcome::Ended
    } else {
        ProbeOutcome::Active
    }
}

/// The stop decision for one cycle: stop exactly when the probe reported
/// the chat ended, or when no message has arrived for
/// `INACTIVITY_LIMIT_MS` -- the latter regardless of any probe outcome.
pub fn should_stop(since_last_message_ms: u64, probe: Option<ProbeOutcome>) -> (stop: bool)
    ensures
        stop == (probe == Some(ProbeOutcome::Ended) || since_last_message_ms
            >= INACTIVITY_LIMIT_MS),
        since_last_message_ms >= INACTIVITY_LIMIT_MS ==> stop,
{
    let probe_ended = match probe {
        Some(ProbeOutcome::Ended) => true,
        _ => false,
    };
    probe_ended || since_last_message_ms >= INACTIVITY_LIMIT_MS
}

/// `needle` occurs in `haystack` starting at `i`.
pub open spec fn is_match_at(h: Seq<u8>, n: Seq<u8>, i: int) -> bool {
    0 <= i && i + n.len() <= h.len() && h.subrange(i, i + n.len()) == n
}

/// `needle` occurs somewhere in `haystack`.
pub open spec fn contains_seq(h: Seq<u8>, n: Seq<u8>) -> bool {
    exists|i: int| is_match_at(h, n, i)
}

fn match_at(haystack: &Vec<u8>, needle: &Vec<u8>, i: usize) -> (r: bool)
    requires
        i + needle@.len() <= haystack@.len(),
    ensures
        r == is_match_at(haystack@, needle@, i as int),
{
    let n_len = needle.len();
    let h_len = haystack.len();
    let mut j: usize = 0;
    while j < n_len
        invariant
            j <= n_len,
            n_len == needle@.len(),
            h_len == haystack@.len(),
            i + n_len <= h_len,
            forall|jj: int| 0 <= jj < j ==> haystack@[i + jj] == needle@[jj],
        decreases n_len - j,
    {
        if haystack[i + j] != needle[j] {
            proof {
                if is_match_at(haystack@, needle@, i as int) {
                    assert(haystack@.subrange(i as int, i + needle@.len())[j as int]
                        == haystack@[i + j]);
                }
            }
            return false;
        }
        j = j + 1;
    }
    proof {
        assert(haystack@.subrange(i as int, i + needle@.len()) =~= needle@);
    }
    true
}

/// Byte-wise substring search: true exactly when `needle` occurs in
/// `haystack`.  The liveness probe applies this to the fetched chat page
/// and the page's "chat unavailable" marker.
pub fn contains_subslice(haystack: &Vec<u8>, needle: &Vec<u8>) -> (r: bool)
    ensures
        r == contains_seq(haystack@, needle@),
{
    if needle.len() == 0 {
        proof {
            assert(haystack@.subrange(0, 0) =~= needle@);
            assert(is_match_at(haystack@, needle@, 0));
        }
        return true;
    }
    if needle.len() > haystack.len() {
        proof {
            assert(!contains_seq(haystack@, needle@));
        }
        return false;
    }
    let n_len = needle.len();
    let h_len = haystack.len();
    let limit = h_len - n_len;
    let mut i: usize = 0;
    while i <= limit
        invariant
            n_len == needle@.len(),
            h_len == haystack@.len(),
            1 <= n_len <= h_len,
            limit == h_len - n_len,
            i <= limit + 1,
            forall|ii: int| 0 <= ii < i ==> !is_match_at(haystack@, needle@, ii),
        decreases limit + 1 - i,
    {
        if match_at(haystack, needle, i) {
            return true;
        }
        i = i + 1;
    }
    proof {
        assert forall|ii: int| !is_match_at(haystack@, needle@, ii) by {
            if 0 <= ii <= limit as int {
                assert(!is_match_at(haystack@, needle@, ii));
            }
        }
    }
    false
}

} // verus!
