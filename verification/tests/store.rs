use rust_scraper::events::ChatMessage;
use rust_scraper::events::RecentDonator;
use rust_scraper::events::parse_chat_payload;
use rust_scraper::store::AggregateStore;

fn chat(username: &str, message: &str) -> ChatMessage {
    ChatMessage { username: username.to_string(), message: message.to_string() }
}

fn donation(username: &str, amount: &str, message: &str) -> RecentDonator {
    RecentDonator {
        username: username.to_string(),
        amount: amount.to_string(),
        message: message.to_string(),
    }
}

#[test]
fn three_chat_events_drain_in_order_with_counts() {
    // Events recorded, then drained once: the batch is the three messages
    // in arrival order, counts are {alice: 2, bob: 1}, top-1 is alice.
    let mut store = AggregateStore::new();
    for payload in ["alice\thello", "bob\thi", "alice\tyo"] {
        store.record_chat(parse_chat_payload(payload).unwrap());
    }
    let batch = store.drain_batch();
    assert_eq!(batch.len(), 3);
    assert_eq!(batch[0].username, "alice");
    assert_eq!(batch[0].message, "hello");
    assert_eq!(batch[1].username, "bob");
    assert_eq!(batch[1].message, "hi");
    assert_eq!(batch[2].username, "alice");
    assert_eq!(batch[2].message, "yo");
    assert_eq!(store.chatter_count(&"alice".to_string()), 2);
    assert_eq!(store.chatter_count(&"bob".to_string()), 1);
    let top = store.snapshot_top_chatters(1);
    assert_eq!(top.len(), 1);
    assert_eq!(top[0].username, "alice");
    assert_eq!(top[0].message_count, 2);
}

#[test]
fn drains_interleaved_with_records_lose_nothing() {
    let mut store = AggregateStore::new();
    let mut seen: Vec<String> = Vec::new();
    store.record_chat(chat("u1", "m1"));
    store.record_chat(chat("u2", "m2"));
    for m in store.drain_batch() {
        seen.push(m.message.clone());
    }
    store.record_chat(chat("u3", "m3"));
    for m in store.drain_batch() {
        seen.push(m.message.clone());
    }
    // An empty drain in between returns nothing and loses nothing.
    assert!(store.drain_batch().is_empty());
    store.record_chat(chat("u4", "m4"));
    for m in store.drain_batch() {
        seen.push(m.message.clone());
    }
    assert_eq!(seen, vec!["m1", "m2", "m3", "m4"]);
    assert_eq!(store.pending_len(), 0);
}

#[test]
fn drained_batch_leaves_pending_empty() {
    let mut store = AggregateStore::new();
    store.record_chat(chat("a", "x"));
    assert_eq!(store.pending_len(), 1);
    let batch = store.drain_batch();
    assert_eq!(batch.len(), 1);
    assert_eq!(store.pending_len(), 0);
    assert!(store.drain_batch().is_empty());
}

#[test]
fn counts_survive_drains() {
    let mut store = AggregateStore::new();
    store.record_chat(chat("a", "1"));
    store.drain_batch();
    store.record_chat(chat("a", "2"));
    store.drain_batch();
    assert_eq!(store.chatter_count(&"a".to_string()), 2);
    assert_eq!(store.distinct_chatters(), 1);
}

#[test]
fn count_of_unknown_user_is_zero() {
    let store = AggregateStore::new();
    assert_eq!(store.chatter_count(&"ghost".to_string()), 0);
}

#[test]
fn eleven_donations_keep_the_most_recent_ten() {
    // Donations D1..D11 recorded in order: the window is [D2..D11].
    let mut store = AggregateStore::new();
    for i in 1..=11 {
        store.record_donation(donation(&format!("d{i}"), &format!("${i}.00"), "thanks"));
    }
    let window = store.snapshot_donations();
    assert_eq!(window.len(), 10);
    for (slot, i) in (2..=11).enumerate() {
        assert_eq!(window[slot].username, format!("d{i}"));
        assert_eq!(window[slot].amount, format!("${i}.00"));
    }
}

#[test]
fn donation_window_below_capacity_keeps_everything() {
    let mut store = AggregateStore::new();
    for i in 1..=9 {
        store.record_donation(donation(&format!("d{i}"), "$1.00", ""));
    }
    let window = store.snapshot_donations();
    assert_eq!(window.len(), 9);
    assert_eq!(window[0].username, "d1");
    assert_eq!(window[8].username, "d9");
}

#[test]
fn donation_window_at_capacity_evicts_oldest_first() {
    let mut store = AggregateStore::new();
    for i in 1..=10 {
        store.record_donation(donation(&format!("d{i}"), "$1.00", ""));
    }
    assert_eq!(store.snapshot_donations()[0].username, "d1");
    store.record_donation(donation("d11", "$1.00", ""));
    let window = store.snapshot_donations();
    assert_eq!(window.len(), 10);
    assert_eq!(window[0].username, "d2");
    assert_eq!(window[9].username, "d11");
}

#[test]
fn donations_do_not_disturb_chat_state() {
    let mut store = AggregateStore::new();
    store.record_chat(chat("a", "x"));
    store.record_donation(donation("d", "$1", "m"));
    assert_eq!(store.pending_len(), 1);
    assert_eq!(store.chatter_count(&"a".to_string()), 1);
}
