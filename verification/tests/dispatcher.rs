use rust_scraper::dispatcher::DispatcherState;
use rust_scraper::dispatcher::run_cycle;
use rust_scraper::events::ChatMessage;
use rust_scraper::liveness::ProbeOutcome;
use rust_scraper::store::AggregateStore;

fn chat(username: &str, message: &str) -> ChatMessage {
    ChatMessage { username: username.to_string(), message: message.to_string() }
}

#[test]
fn empty_cycle_is_idempotent() {
    // An empty pending batch: the message sink is not invoked, the
    // empty-cycle counter goes up by exactly one, and counts and
    // donations stay as they were.
    let mut store = AggregateStore::new();
    store.record_chat(chat("alice", "hi"));
    store.drain_batch();
    let mut state = DispatcherState::new(1_000);
    state.consecutive_empty_cycles = 1;
    let outcome = run_cycle(&mut store, &mut state, 2_000);
    assert!(!outcome.send_messages);
    assert!(outcome.batch.is_empty());
    assert_eq!(outcome.interval_messages, 0);
    assert_eq!(state.consecutive_empty_cycles, 2);
    assert_eq!(store.chatter_count(&"alice".to_string()), 1);
    assert!(store.snapshot_donations().is_empty());
    assert_eq!(state.total_messages, 0);
}

#[test]
fn non_empty_cycle_resets_counters_and_sends() {
    let mut store = AggregateStore::new();
    store.record_chat(chat("alice", "one"));
    store.record_chat(chat("bob", "two"));
    let mut state = DispatcherState::new(0);
    state.consecutive_empty_cycles = 4;
    let outcome = run_cycle(&mut store, &mut state, 5_000);
    assert!(outcome.send_messages);
    assert_eq!(outcome.interval_messages, 2);
    assert_eq!(outcome.batch.len(), 2);
    assert_eq!(outcome.batch[0].message, "one");
    assert_eq!(outcome.batch[1].message, "two");
    assert_eq!(state.consecutive_empty_cycles, 0);
    assert_eq!(state.last_message_ms, 5_000);
    assert_eq!(state.total_messages, 2);
}

#[test]
fn top_chatters_recompute_every_third_empty_cycle() {
    let mut store = AggregateStore::new();
    let mut state = DispatcherState::new(0);
    let mut recomputed = Vec::new();
    for t in 1..=7u64 {
        let outcome = run_cycle(&mut store, &mut state, t * 1_000);
        recomputed.push(outcome.recompute_top);
    }
    // Counter runs 1..=7; recompute at 3 and 6.
    assert_eq!(recomputed, vec![false, false, true, false, false, true, false]);
}

#[test]
fn messages_always_force_a_recompute() {
    let mut store = AggregateStore::new();
    let mut state = DispatcherState::new(0);
    state.consecutive_empty_cycles = 2;
    store.record_chat(chat("a", "m"));
    let outcome = run_cycle(&mut store, &mut state, 1_000);
    assert!(outcome.recompute_top);
}

#[test]
fn sleep_shortens_after_five_empty_cycles() {
    let mut store = AggregateStore::new();
    let mut state = DispatcherState::new(0);
    state.consecutive_empty_cycles = 4;
    // Counter reaches 5, 6, 7: the sleep shortens once it exceeds 5.
    assert_eq!(run_cycle(&mut store, &mut state, 1).sleep_secs, 10);
    assert_eq!(run_cycle(&mut store, &mut state, 2).sleep_secs, 5);
    assert_eq!(run_cycle(&mut store, &mut state, 3).sleep_secs, 5);
    assert_eq!(state.consecutive_empty_cycles, 7);
}

#[test]
fn total_messages_accumulate_across_cycles() {
    let mut store = AggregateStore::new();
    let mut state = DispatcherState::new(0);
    store.record_chat(chat("a", "1"));
    run_cycle(&mut store, &mut state, 1);
    store.record_chat(chat("a", "2"));
    store.record_chat(chat("b", "3"));
    run_cycle(&mut store, &mut state, 2);
    assert_eq!(state.total_messages, 3);
}

#[test]
fn probe_due_uses_state_clocks() {
    let mut state = DispatcherState::new(0);
    state.consecutive_empty_cycles = 3;
    assert!(!state.probe_due(59_999));
    assert!(state.probe_due(60_000));
    state.mark_probe_done(60_000);
    assert!(!state.probe_due(60_001));
    assert!(state.probe_due(120_000));
}

#[test]
fn evaluate_stop_combines_probe_and_inactivity() {
    let state = DispatcherState::new(0);
    assert!(!state.evaluate_stop(1_000, None));
    assert!(state.evaluate_stop(1_000, Some(ProbeOutcome::Ended)));
    assert!(!state.evaluate_stop(1_000, Some(ProbeOutcome::Active)));
    assert!(state.evaluate_stop(1_800_000, None));
    assert!(state.evaluate_stop(31 * 60_000, Some(ProbeOutcome::Inconclusive)));
}
