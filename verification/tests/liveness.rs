use rust_scraper::liveness::ProbeOutcome;
use rust_scraper::liveness::classify_probe;
use rust_scraper::liveness::contains_subslice;
use rust_scraper::liveness::probe_due;
use rust_scraper::liveness::should_stop;

const MINUTE_MS: u64 = 60_000;

#[test]
fn thirty_one_minutes_of_silence_stop_regardless_of_probe() {
    let silence = 31 * MINUTE_MS;
    assert!(should_stop(silence, None));
    assert!(should_stop(silence, Some(ProbeOutcome::Ended)));
    assert!(should_stop(silence, Some(ProbeOutcome::Active)));
    assert!(should_stop(silence, Some(ProbeOutcome::Inconclusive)));
}

#[test]
fn probe_ended_stops_even_with_recent_messages() {
    assert!(should_stop(0, Some(ProbeOutcome::Ended)));
}

#[test]
fn ambiguous_probe_does_not_stop() {
    assert!(!should_stop(29 * MINUTE_MS, Some(ProbeOutcome::Inconclusive)));
    assert!(!should_stop(29 * MINUTE_MS, Some(ProbeOutcome::Active)));
    assert!(!should_stop(29 * MINUTE_MS, None));
}

#[test]
fn exactly_thirty_minutes_stops() {
    assert!(should_stop(30 * MINUTE_MS, None));
}

#[test]
fn probe_due_after_three_empty_cycles_and_cooldown() {
    assert!(probe_due(3, 0, 60_000));
    assert!(!probe_due(3, 0, 59_999));
    assert!(!probe_due(2, 0, 60_000));
}

#[test]
fn probe_due_after_five_minutes_of_silence_with_short_cooldown() {
    assert!(probe_due(0, 5 * MINUTE_MS, 30_000));
    assert!(!probe_due(0, 5 * MINUTE_MS, 29_999));
    assert!(!probe_due(0, 5 * MINUTE_MS - 1, 30_000));
}

#[test]
fn probe_due_after_fifteen_minutes_of_silence_with_long_cooldown() {
    assert!(probe_due(0, 15 * MINUTE_MS, 60_000));
    // Below every cooldown no rule fires, however long the silence.
    assert!(!probe_due(0, 15 * MINUTE_MS, 29_999));
}

#[test]
fn classify_probe_maps_fetch_results() {
    assert_eq!(classify_probe(false, false), ProbeOutcome::Inconclusive);
    assert_eq!(classify_probe(false, true), ProbeOutcome::Inconclusive);
    assert_eq!(classify_probe(true, true), ProbeOutcome::Ended);
    assert_eq!(classify_probe(true, false), ProbeOutcome::Active);
}

#[test]
fn marker_is_found_inside_a_page_body() {
    let marker = "채팅을 사용할 수 없는 실시간 스트림입니다.".as_bytes().to_vec();
    let body = format!("<yt-formatted-string id=\"text\">{}</yt-formatted-string>",
        "채팅을 사용할 수 없는 실시간 스트림입니다.")
        .into_bytes();
    assert!(contains_subslice(&body, &marker));
}

#[test]
fn marker_absent_from_a_live_page_body() {
    let marker = "채팅을 사용할 수 없는 실시간 스트림입니다.".as_bytes().to_vec();
    let body = b"<html>live chat renderer</html>".to_vec();
    assert!(!contains_subslice(&body, &marker));
}

#[test]
fn substring_search_edge_cases() {
    assert!(contains_subslice(&b"abc".to_vec(), &b"".to_vec()));
    assert!(contains_subslice(&b"abc".to_vec(), &b"abc".to_vec()));
    assert!(contains_subslice(&b"aabab".to_vec(), &b"ab".to_vec()));
    assert!(!contains_subslice(&b"ab".to_vec(), &b"abc".to_vec()));
    assert!(!contains_subslice(&b"aaab".to_vec(), &b"abb".to_vec()));
    assert!(contains_subslice(&b"xxxay".to_vec(), &b"ay".to_vec()));
}
