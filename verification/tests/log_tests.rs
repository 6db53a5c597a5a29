use website_checker::logfmt::{console_line, result_line, run_finished_line, run_started_line};
use website_checker::outcome::{CheckOutcome, Config, WebsiteStatus};
use website_checker::runlog::RunLog;

fn cfg(workers: usize) -> Config {
    Config {
        worker_threads: workers,
        request_timeout_secs: 5,
        max_retries: 1,
        log_file: "run.log".to_string(),
    }
}

fn ok_status() -> WebsiteStatus {
    WebsiteStatus {
        url: "https://a.example".to_string(),
        outcome: CheckOutcome::Reached(200),
        elapsed_ms: 123,
        timestamp: "2024-01-02T03:04:05+00:00".to_string(),
    }
}

#[test]
fn result_line_reached_is_exact() {
    let line = result_line(&ok_status());
    assert_eq!(
        line,
        "{\"url\":\"https://a.example\",\"status\":200,\"response_time_ms\":123,\"timestamp\":\"2024-01-02T03:04:05+00:00\"}"
    );
}

#[test]
fn result_line_unreachable_quotes_reason() {
    let ws = WebsiteStatus {
        url: "https://b.example".to_string(),
        outcome: CheckOutcome::Unreachable("transport error: refused".to_string()),
        elapsed_ms: 0,
        timestamp: "2024-01-02T03:04:06+00:00".to_string(),
    };
    let line = result_line(&ws);
    assert_eq!(
        line,
        "{\"url\":\"https://b.example\",\"status\":\"transport error: refused\",\"response_time_ms\":0,\"timestamp\":\"2024-01-02T03:04:06+00:00\"}"
    );
}

#[test]
fn json_escaping_covers_quotes_backslashes_and_controls() {
    let ws = WebsiteStatus {
        url: "https://c.example/\"x\\y\"".to_string(),
        outcome: CheckOutcome::Unreachable("line\nbreak\ttab\u{1}ctl".to_string()),
        elapsed_ms: 9,
        timestamp: "t".to_string(),
    };
    let line = result_line(&ws);
    assert_eq!(
        line,
        "{\"url\":\"https://c.example/\\\"x\\\\y\\\"\",\"status\":\"line\\nbreak\\ttab\\u0001ctl\",\"response_time_ms\":9,\"timestamp\":\"t\"}"
    );
}

#[test]
fn run_markers_are_exact() {
    let start = run_started_line(&cfg(4), "2024-01-02T00:00:00+00:00");
    assert_eq!(
        start,
        "{\"run_started\":\"2024-01-02T00:00:00+00:00\",\"worker_threads\":4,\"timeout_secs\":5,\"max_retries\":1}"
    );
    let finish = run_finished_line("2024-01-02T00:10:00+00:00");
    assert_eq!(finish, "{\"run_finished\":\"2024-01-02T00:10:00+00:00\"}");
}

#[test]
fn worker_count_is_clamped_upward_in_start_marker() {
    let start = run_started_line(&cfg(0), "t");
    assert_eq!(
        start,
        "{\"run_started\":\"t\",\"worker_threads\":1,\"timeout_secs\":5,\"max_retries\":1}"
    );
    assert_eq!(cfg(0).effective_workers(), 1);
    assert_eq!(cfg(8).effective_workers(), 8);
}

#[test]
fn console_line_has_both_forms() {
    assert_eq!(
        console_line(&ok_status()),
        "[2024-01-02T03:04:05+00:00] https://a.example | status=200 | rt=123ms"
    );
    let bad = WebsiteStatus {
        url: "https://b.example".to_string(),
        outcome: CheckOutcome::Unreachable("timeout".to_string()),
        elapsed_ms: 5000,
        timestamp: "ts".to_string(),
    };
    assert_eq!(
        console_line(&bad),
        "[ts] https://b.example | error=timeout | rt=5000ms"
    );
}

#[test]
fn log_shape_start_results_finish() {
    let mut log = RunLog::start_at(&cfg(2), "t0");
    for i in 0..3u16 {
        let ws = WebsiteStatus {
            url: format!("https://{i}.example"),
            outcome: CheckOutcome::Reached(200 + i),
            elapsed_ms: i as u64,
            timestamp: format!("t{}", i + 1),
        };
        log.record(&ws);
    }
    log.finish_at("t9");
    let lines = log.lines();
    assert_eq!(lines.len(), 5);
    assert!(lines[0].starts_with("{\"run_started\":"));
    for line in &lines[1..4] {
        assert!(line.starts_with("{\"url\":"));
    }
    assert_eq!(lines[4], "{\"run_finished\":\"t9\"}");
    assert_eq!(log.line_count(), 5);
}

#[test]
fn clocked_markers_still_shape_the_log() {
    let mut log = RunLog::start(&cfg(1));
    log.record(&ok_status());
    log.finish();
    let lines = log.lines();
    assert_eq!(lines.len(), 3);
    assert!(lines[0].starts_with("{\"run_started\":"));
    // The clocked start marker still carries exactly the settings.
    assert!(lines[0].ends_with("\"worker_threads\":1,\"timeout_secs\":5,\"max_retries\":1}"));
    assert!(lines[1].starts_with("{\"url\":"));
    assert!(lines[2].starts_with("{\"run_finished\":"));
}
