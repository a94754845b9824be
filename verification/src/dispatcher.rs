//! The batch dispatcher's per-cycle bookkeeping and decisions.
//!
//! Each cycle drains the aggregate store's pending batch, updates the
//! inactivity bookkeeping, and decides what the rest of the cycle has to
//! do: whether the batch goes to the message sink, whether the top-K
//! chatters are recomputed this cycle, and how long to sleep before the
//! next cycle.  The surrounding loop performs the decided actions and
//! consults the liveness detector through the methods on the state.

use vstd::prelude::*;

use crate::events::ChatMessage;
use crate::events::message_views;
use crate::liveness::ProbeOutcome;
use crate::liveness::probe_due;
use crate::liveness::should_stop;
use crate::liveness::spec_probe_due;
use crate::liveness::INACTIVITY_LIMIT_MS;
use crate::store::AggregateStore;

verus! {

/// The ordinary sleep between cycles, in seconds.
pub const BASE_CYCLE_SECS: u64 = 10;

/// The shorter sleep once the stream looks like it is winding down.
pub const SHORT_CYCLE_SECS: u64 = 5;

/// Empty cycles after which the shorter sleep is used.
pub const EMPTY_CYCLES_FOR_SHORT_SLEEP: u64 = 5;

/// Empty cycles between two recomputations of the top chatters.
pub const RECOMPUTE_EVERY_EMPTY_CYCLES: u64 = 3;

/// How many top chatters a metrics snapshot carries.
pub const TOP_CHATTERS_COUNT: usize = 5;

/// The dispatcher's bookkeeping across cycles, over caller-supplied
/// monotonic time in milliseconds.
pub struct DispatcherState {
    pub consecutive_empty_cycles: u64,
    pub total_messages: usize,
    pub last_message_ms: u64,
    pub last_probe_ms: u64,
}

/// What one cycle decided, beside the drained batch itself.
pub struct CycleOutcome {
    pub batch: Vec<ChatMessage>,
    pub send_messages: bool,
    pub recompute_top: bool,
    pub interval_messages: usize,
    pub sleep_secs: u64,
}

impl DispatcherState {
    /// Fresh bookkeeping at session start.
    pub fn new(now_ms: u64) -> (s: DispatcherState)
        ensures
            s.consecutive_empty_cycles == 0,
            s.total_messages == 0,
            s.last_message_ms == now_ms,
            s.last_probe_ms == now_ms,
    {
        DispatcherState {
            consecutive_empty_cycles: 0,
            total_messages: 0,
            last_message_ms: now_ms,
            last_probe_ms: now_ms,
        }
    }

    /// Whether the out-of-band liveness probe is due this cycle.
    pub fn probe_due(&self, now_ms: u64) -> (r: bool)
        requires
            self.last_message_ms <= now_ms,
            self.last_probe_ms <= now_ms,
        ensures
            r == spec_probe_due(
                self.consecutive_empty_cycles,
                (now_ms - self.last_message_ms) as u64,
                (now_ms - self.last_probe_ms) as u64,
            ),
    {
        probe_due(
            self.consecutive_empty_cycles,
            now_ms - self.last_message_ms,
            now_ms - self.last_probe_ms,
        )
    }

    /// Remembers that a probe was just issued, whatever it reported.
    pub fn mark_probe_done(&mut self, now_ms: u64)
        ensures
            final(self).last_probe_ms == now_ms,
            final(self).consecutive_empty_cycles == old(self).consecutive_empty_cycles,
            final(self).total_messages == old(self).total_messages,
            final(self).last_message_ms == old(self).last_message_ms,
    {
        self.last_probe_ms = now_ms;
    }

    /// The cycle's stop decision: stop exactly when the probe reported
    /// the chat ended, or when messages have stopped for
    /// `INACTIVITY_LIMIT_MS` -- the latter regardless of the probe.
    pub fn evaluate_stop(&self, now_ms: u64, probe: Option<ProbeOutcome>) -> (stop: bool)
        requires
            self.last_message_ms <= now_ms,
        ensures
            stop == (probe == Some(ProbeOutcome::Ended) || now_ms - self.last_message_ms
                >= INACTIVITY_LIMIT_MS),
            now_ms - self.last_message_ms >= INACTIVITY_LIMIT_MS ==> stop,
    {
        should_stop(now_ms - self.last_message_ms, probe)
    }
}

/// One dispatch cycle's drain and bookkeeping.
///
/// The store's pending batch is drained in full.  A non-empty batch
/// resets the inactivity clock and the empty-cycle counter and is handed
/// back for the message sink; an empty batch only increments the counter:
/// the message sink is not to be invoked, and counts and donations are
/// untouched either way.  The top chatters are recomputed on every third
/// consecutive empty cycle -- and so always when messages just arrived --
/// and the next sleep shortens once the counter passes
/// `EMPTY_CYCLES_FOR_SHORT_SLEEP`.
pub fn run_cycle(store: &mut AggregateStore, state: &mut DispatcherState, now_ms: u64) -> (r:
    CycleOutcome)
    requires
        old(store).wf(),
        old(state).total_messages + old(store).pending_view().len() <= usize::MAX,
        old(state).consecutive_empty_cycles < u64::MAX,
    ensures
        final(store).wf(),
        // what the drain did to the store
        message_views(r.batch@) == old(store).pending_view(),
        final(store).pending_view().len() == 0,
        final(store).drained_view() == old(store).drained_view() + old(store).pending_view(),
        final(store).recorded_view() == old(store).recorded_view(),
        final(store).counts_seq() == old(store).counts_seq(),
        final(store).window_view() == old(store).window_view(),
        final(store).donated_view() == old(store).donated_view(),
        // the decisions
        r.interval_messages == old(store).pending_view().len(),
        r.send_messages == (old(store).pending_view().len() > 0),
        r.recompute_top == (final(state).consecutive_empty_cycles % RECOMPUTE_EVERY_EMPTY_CYCLES
            == 0),
        r.sleep_secs == if final(state).consecutive_empty_cycles > EMPTY_CYCLES_FOR_SHORT_SLEEP {
            SHORT_CYCLE_SECS
        } else {
            BASE_CYCLE_SECS
        },
        // the bookkeeping
        old(store).pending_view().len() > 0 ==> (final(state).consecutive_empty_cycles == 0
            && final(state).last_message_ms == now_ms),
        old(store).pending_view().len() == 0 ==> (final(state).consecutive_empty_cycles
            == old(state).consecutive_empty_cycles + 1 && final(state).last_message_ms
            == old(state).last_message_ms),
        final(state).total_messages == old(state).total_messages
            + old(store).pending_view().len(),
        final(state).last_probe_ms == old(state).last_probe_ms,
{
    let batch = store.drain_batch();
    let interval_messages = batch.len();
    if interval_messages > 0 {
        state.last_message_ms = now_ms;
        state.consecutive_empty_cycles = 0;
        state.total_messages = state.total_messages + interval_messages;
    } else {
        state.consecutive_empty_cycles = state.consecutive_empty_cycles + 1;
    }
    let recompute_top = state.consecutive_empty_cycles % RECOMPUTE_EVERY_EMPTY_CYCLES == 0;
    let sleep_secs = if state.consecutive_empty_cycles > EMPTY_CYCLES_FOR_SHORT_SLEEP {
        SHORT_CYCLE_SECS
    } else {
        BASE_CYCLE_SECS
    };
    CycleOutcome {
        send_messages: interval_messages > 0,
        recompute_top,
        interval_messages,
        sleep_secs,
        batch,
    }
}

} // verus!
