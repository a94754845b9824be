use rust_scraper::breaker::CircuitBreaker;

#[test]
fn breaker_opens_at_threshold() {
    let mut b = CircuitBreaker::new(3, 30_000, 0);
    assert!(b.is_closed());
    assert!(b.record_failure(100));
    assert!(b.record_failure(200));
    assert!(!b.record_failure(300));
    assert!(!b.is_closed());
    assert_eq!(b.last_failure_ms, 300);
}

#[test]
fn open_breaker_refuses_until_timeout_passes() {
    let mut b = CircuitBreaker::new(1, 30_000, 0);
    b.record_failure(1_000);
    assert!(!b.allow_request(1_001));
    assert!(!b.allow_request(30_999));
    // Past the reset timeout one request half-opens the breaker.
    assert!(b.allow_request(31_000));
    assert!(b.is_closed());
}

#[test]
fn success_after_timeout_closes_and_resets() {
    let mut b = CircuitBreaker::new(1, 30_000, 0);
    b.record_failure(1_000);
    assert!(!b.is_closed());
    // Too early: stays open, failures kept.
    b.record_success(20_000);
    assert!(!b.is_closed());
    assert_eq!(b.failure_count, 1);
    b.record_success(31_000);
    assert!(b.is_closed());
    assert_eq!(b.failure_count, 0);
}

#[test]
fn success_on_closed_breaker_changes_nothing() {
    let mut b = CircuitBreaker::new(3, 30_000, 0);
    b.record_failure(10);
    b.record_success(20);
    assert!(b.is_closed());
    assert_eq!(b.failure_count, 1);
}
