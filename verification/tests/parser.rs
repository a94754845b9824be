use rust_scraper::events::parse_chat_payload;
use rust_scraper::events::parse_donation_payload;
use rust_scraper::events::split_tab_fields;

#[test]
fn chat_payload_with_two_fields_parses() {
    let msg = parse_chat_payload("alice\thello there").unwrap();
    assert_eq!(msg.username, "alice");
    assert_eq!(msg.message, "hello there");
}

#[test]
fn chat_payload_with_one_field_is_dropped() {
    assert!(parse_chat_payload("no delimiter here").is_none());
}

#[test]
fn chat_payload_with_three_fields_is_dropped() {
    assert!(parse_chat_payload("a\tb\tc").is_none());
}

#[test]
fn chat_payload_empty_is_dropped() {
    assert!(parse_chat_payload("").is_none());
}

#[test]
fn chat_payload_keeps_empty_fields() {
    let msg = parse_chat_payload("\t").unwrap();
    assert_eq!(msg.username, "");
    assert_eq!(msg.message, "");
}

#[test]
fn chat_payload_with_unicode_fields_parses() {
    let msg = parse_chat_payload("시청자\t안녕하세요").unwrap();
    assert_eq!(msg.username, "시청자");
    assert_eq!(msg.message, "안녕하세요");
}

#[test]
fn donation_payload_with_three_fields_parses() {
    let d = parse_donation_payload("bob\tTHB 100.00\tthanks for the stream").unwrap();
    assert_eq!(d.username, "bob");
    assert_eq!(d.amount, "THB 100.00");
    assert_eq!(d.message, "thanks for the stream");
}

#[test]
fn donation_payload_with_two_fields_is_dropped() {
    assert!(parse_donation_payload("bob\t$5.00").is_none());
}

#[test]
fn donation_payload_with_four_fields_is_dropped() {
    assert!(parse_donation_payload("a\tb\tc\td").is_none());
}

#[test]
fn donation_amount_is_passed_through_verbatim() {
    let d = parse_donation_payload("eve\t$0.00\t").unwrap();
    assert_eq!(d.amount, "$0.00");
    assert_eq!(d.message, "");
}

#[test]
fn split_keeps_every_field_in_order() {
    let fields = split_tab_fields("a\t\tb\t");
    assert_eq!(fields, vec!["a", "", "b", ""]);
}

#[test]
fn split_without_delimiter_returns_whole_payload() {
    let fields = split_tab_fields("just one");
    assert_eq!(fields, vec!["just one"]);
}
