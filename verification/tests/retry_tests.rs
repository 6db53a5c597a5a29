use website_checker::outcome::{AttemptRecord, CheckOutcome};
use website_checker::retry::RetryController;

fn reached(code: u16, ms: u64) -> AttemptRecord {
    AttemptRecord { outcome: CheckOutcome::Reached(code), elapsed_ms: ms }
}

fn failed(reason: &str, ms: u64) -> AttemptRecord {
    AttemptRecord { outcome: CheckOutcome::Unreachable(reason.to_string()), elapsed_ms: ms }
}

fn record(c: &mut RetryController, a: AttemptRecord) {
    c.record_attempt(a.outcome, a.elapsed_ms);
}

#[test]
fn first_attempt_success_stops_immediately() {
    let mut c = RetryController::new(3);
    assert!(c.needs_attempt());
    record(&mut c, reached(200, 12));
    assert!(!c.needs_attempt());
    let r = c.take_result();
    assert!(matches!(r.outcome, CheckOutcome::Reached(200)));
    assert_eq!(r.elapsed_ms, 12);
}

#[test]
fn error_status_still_stops_retrying() {
    let mut c = RetryController::new(1);
    assert!(c.needs_attempt());
    record(&mut c, failed("connection refused", 5));
    assert!(c.needs_attempt());
    record(&mut c, reached(503, 7));
    assert!(!c.needs_attempt());
    let r = c.take_result();
    assert!(matches!(r.outcome, CheckOutcome::Reached(503)));
    assert_eq!(r.elapsed_ms, 7);
}

#[test]
fn exhaustion_keeps_last_attempt() {
    let mut c = RetryController::new(1);
    record(&mut c, failed("timeout", 100));
    assert!(c.needs_attempt());
    record(&mut c, failed("dns failure", 250));
    assert!(!c.needs_attempt());
    let r = c.take_result();
    match r.outcome {
        CheckOutcome::Unreachable(reason) => assert_eq!(reason, "dns failure"),
        CheckOutcome::Reached(_) => panic!("expected a transport failure"),
    }
    assert_eq!(r.elapsed_ms, 250);
}

#[test]
fn zero_budget_makes_exactly_one_attempt() {
    let mut c = RetryController::new(0);
    assert!(c.needs_attempt());
    record(&mut c, failed("refused", 1));
    assert!(!c.needs_attempt());
    let r = c.take_result();
    assert!(matches!(r.outcome, CheckOutcome::Unreachable(_)));
}

#[test]
fn attempt_count_never_exceeds_budget_plus_one() {
    let budget = 4u32;
    let mut c = RetryController::new(budget);
    let mut attempts = 0u32;
    while c.needs_attempt() {
        record(&mut c, failed("down", 3));
        attempts += 1;
        assert!(attempts <= budget + 1);
    }
    assert_eq!(attempts, budget + 1);
}
