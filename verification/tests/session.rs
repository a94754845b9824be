use rust_scraper::retry::RetryAction;
use rust_scraper::retry::RetryPolicy;
use rust_scraper::session::Session;
use rust_scraper::status::ScraperStatus;

#[test]
fn three_metrics_failures_back_off_then_give_up() {
    // Delays 1s then 2s, then the third failure is fatal: the running
    // flag clears and the session is Failed.
    let mut session = Session::new();
    session.start();
    assert_eq!(session.on_metrics_result(false), Some(RetryAction::Backoff(1)));
    assert!(session.running);
    assert_eq!(session.on_metrics_result(false), Some(RetryAction::Backoff(2)));
    assert!(session.running);
    assert_eq!(session.on_metrics_result(false), Some(RetryAction::GiveUp));
    assert!(!session.running);
    assert_eq!(session.status, ScraperStatus::Failed);
}

#[test]
fn single_failure_then_success_does_not_stop() {
    let mut session = Session::new();
    session.start();
    assert_eq!(session.on_metrics_result(false), Some(RetryAction::Backoff(1)));
    assert_eq!(session.on_metrics_result(true), None);
    assert!(session.running);
    assert_eq!(session.status, ScraperStatus::Running);
    // The reset policy starts its backoff over.
    assert_eq!(session.on_metrics_result(false), Some(RetryAction::Backoff(1)));
}

#[test]
fn retry_policy_backoff_doubles_per_failure() {
    let mut policy = RetryPolicy::new();
    assert_eq!(policy.on_failure(), RetryAction::Backoff(1));
    assert_eq!(policy.on_failure(), RetryAction::Backoff(2));
    assert_eq!(policy.on_failure(), RetryAction::GiveUp);
    assert!(policy.exhausted());
}

#[test]
fn retry_policy_resets_on_success() {
    let mut policy = RetryPolicy::new();
    policy.on_failure();
    policy.on_failure();
    policy.on_success();
    assert!(!policy.exhausted());
    assert_eq!(policy.on_failure(), RetryAction::Backoff(1));
}

#[test]
fn shutdown_signal_clears_running_only() {
    let mut session = Session::new();
    session.start();
    session.on_shutdown_signal();
    assert!(!session.running);
    assert_eq!(session.status, ScraperStatus::Running);
    // A stopped-but-unfailed session still owes the final push.
    assert!(session.owes_final_push());
}

#[test]
fn clean_stop_completes_and_owes_final_push() {
    let mut session = Session::new();
    session.start();
    assert!(session.owes_final_push());
    session.complete();
    assert_eq!(session.status, ScraperStatus::Completed);
    assert!(session.owes_final_push());
}

#[test]
fn failed_session_owes_no_completed_push() {
    let mut session = Session::new();
    session.start();
    session.on_metrics_result(false);
    session.on_metrics_result(false);
    session.on_metrics_result(false);
    assert!(!session.owes_final_push());
}

#[test]
fn session_starts_idle_then_runs() {
    let mut session = Session::new();
    assert_eq!(session.status, ScraperStatus::Idle);
    assert!(session.running);
    session.start();
    assert_eq!(session.status, ScraperStatus::Running);
}

#[test]
fn status_wire_names() {
    assert_eq!(ScraperStatus::Idle.as_str(), "IDLE");
    assert_eq!(ScraperStatus::Running.as_str(), "RUNNING");
    assert_eq!(ScraperStatus::Failed.as_str(), "FAILED");
    assert_eq!(ScraperStatus::Completed.as_str(), "COMPLETED");
}
