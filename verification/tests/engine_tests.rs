use website_checker::coordinator::run_scripted;
use website_checker::dispatch::{make_jobs, JobQueue};
use website_checker::outcome::{AttemptRecord, CheckOutcome, Config, WebsiteStatus};
use website_checker::retry::RetryController;
use website_checker::runlog::RunLog;

#[test]
fn make_jobs_builds_one_job_per_target_in_order() {
    let urls = vec!["https://a".to_string(), "https://b".to_string(), "https://a".to_string()];
    let jobs = make_jobs(&urls, 7);
    assert_eq!(jobs.len(), 3);
    for (job, url) in jobs.iter().zip(urls.iter()) {
        assert_eq!(&job.url, url);
        assert_eq!(job.max_retries, 7);
    }
}

#[test]
fn queue_hands_out_each_job_exactly_once_in_order() {
    let urls = vec!["u1".to_string(), "u2".to_string()];
    let mut q = JobQueue::new(make_jobs(&urls, 0));
    assert_eq!(q.len(), 2);
    let a = q.take().expect("first job");
    assert_eq!(a.url, "u1");
    let b = q.take().expect("second job");
    assert_eq!(b.url, "u2");
    assert!(q.take().is_none());
    assert!(q.take().is_none());
}

/// Simulates a pool of `workers` units taking jobs round-robin from the
/// shared queue; every job completes with a reached outcome.
fn run_pool(urls: &[String], workers: usize) -> Vec<String> {
    let url_vec: Vec<String> = urls.to_vec();
    let mut q = JobQueue::new(make_jobs(&url_vec, 1));
    let mut held: Vec<Vec<String>> = vec![Vec::new(); workers];
    let mut done: Vec<String> = Vec::new();
    let mut w = 0usize;
    loop {
        match q.take() {
            Some(job) => {
                held[w].push(job.url);
                w = (w + 1) % workers;
            }
            None => break,
        }
        // Let a different worker finish one of its held jobs between takes.
        let finisher = (w + workers / 2) % workers;
        if held[finisher].len() > 1 {
            done.push(held[finisher].remove(0));
        }
    }
    for unit in held.iter_mut() {
        while let Some(url) = unit.pop() {
            done.push(url);
        }
    }
    done
}

#[test]
fn completeness_holds_for_any_pool_size() {
    let urls: Vec<String> = (0..50).map(|i| format!("https://t{}.example", i % 17)).collect();
    let mut expected = urls.clone();
    expected.sort();
    for workers in [1usize, 2, 8] {
        let mut got = run_pool(&urls, workers);
        got.sort();
        assert_eq!(got, expected, "pool size {workers}");
    }
}

#[test]
fn scenario_three_targets_two_workers_one_retry() {
    // A succeeds at once; B fails once, then answers 503; C never answers.
    let cfg = Config {
        worker_threads: 2,
        request_timeout_secs: 5,
        max_retries: 1,
        log_file: "run.log".to_string(),
    };
    let urls = vec!["A".to_string(), "B".to_string(), "C".to_string()];
    let scripts: Vec<Vec<AttemptRecord>> = vec![
        vec![AttemptRecord { outcome: CheckOutcome::Reached(200), elapsed_ms: 10 }],
        vec![
            AttemptRecord {
                outcome: CheckOutcome::Unreachable("refused".to_string()),
                elapsed_ms: 20,
            },
            AttemptRecord { outcome: CheckOutcome::Reached(503), elapsed_ms: 30 },
        ],
        vec![
            AttemptRecord {
                outcome: CheckOutcome::Unreachable("timeout".to_string()),
                elapsed_ms: 40,
            },
            AttemptRecord {
                outcome: CheckOutcome::Unreachable("timeout".to_string()),
                elapsed_ms: 50,
            },
        ],
    ];
    let mut log = RunLog::start_at(&cfg, "t0");
    let mut q = JobQueue::new(make_jobs(&urls, cfg.max_retries));
    let mut attempt_counts = Vec::new();
    let mut outcomes = Vec::new();
    let mut idx = 0usize;
    while let Some(job) = q.take() {
        let mut c = RetryController::new(job.max_retries);
        let mut script = scripts[idx].iter();
        let mut attempts = 0u32;
        while c.needs_attempt() {
            let a = script.next().expect("script long enough").clone();
            c.record_attempt(a.outcome, a.elapsed_ms);
            attempts += 1;
        }
        let rec = c.take_result();
        outcomes.push(rec.outcome.is_reached());
        attempt_counts.push(attempts);
        let ws = WebsiteStatus {
            url: job.url,
            outcome: rec.outcome,
            elapsed_ms: rec.elapsed_ms,
            timestamp: format!("t{}", idx + 1),
        };
        log.record(&ws);
        idx += 1;
    }
    log.finish_at("t9");
    assert_eq!(attempt_counts, vec![1, 2, 2]);
    assert_eq!(outcomes, vec![true, true, false]);
    let lines = log.lines();
    assert_eq!(lines.len(), 5);
    assert!(lines[1].contains("\"url\":\"A\"") && lines[1].contains("\"status\":200"));
    assert!(lines[2].contains("\"url\":\"B\"") && lines[2].contains("\"status\":503"));
    assert!(lines[3].contains("\"url\":\"C\"") && lines[3].contains("\"status\":\"timeout\""));
}

#[test]
fn scripted_run_logs_every_target_between_the_markers() {
    let cfg = Config {
        worker_threads: 2,
        request_timeout_secs: 5,
        max_retries: 1,
        log_file: "run.log".to_string(),
    };
    let urls = vec!["A".to_string(), "B".to_string(), "C".to_string()];
    let unreachable = |ms: u64| AttemptRecord {
        outcome: CheckOutcome::Unreachable("timeout".to_string()),
        elapsed_ms: ms,
    };
    let reached = |code: u16, ms: u64| AttemptRecord {
        outcome: CheckOutcome::Reached(code),
        elapsed_ms: ms,
    };
    // Every script offers the full allowance of two attempts; the run
    // stops early wherever an attempt reaches the server.
    let scripts = vec![
        vec![reached(200, 10), unreachable(99)],
        vec![unreachable(20), reached(503, 30)],
        vec![unreachable(40), unreachable(50)],
    ];
    let log = run_scripted(&cfg, &urls, scripts).expect("targets present");
    let lines = log.lines();
    assert_eq!(lines.len(), 5);
    assert!(lines[0].starts_with("{\"run_started\":"));
    assert!(lines[1].contains("\"url\":\"A\"") && lines[1].contains("\"status\":200"));
    assert!(lines[1].contains("\"response_time_ms\":10"));
    assert!(lines[2].contains("\"url\":\"B\"") && lines[2].contains("\"status\":503"));
    assert!(lines[2].contains("\"response_time_ms\":30"));
    assert!(lines[3].contains("\"url\":\"C\"") && lines[3].contains("\"status\":\"timeout\""));
    assert!(lines[3].contains("\"response_time_ms\":50"));
    assert!(lines[4].starts_with("{\"run_finished\":"));
}

#[test]
fn scripted_run_of_nothing_writes_no_log_at_all() {
    let cfg = Config {
        worker_threads: 1,
        request_timeout_secs: 1,
        max_retries: 0,
        log_file: "run.log".to_string(),
    };
    assert!(run_scripted(&cfg, &Vec::new(), Vec::new()).is_none());
}

#[test]
fn empty_input_makes_no_jobs_and_no_results() {
    let urls: Vec<String> = Vec::new();
    let jobs = make_jobs(&urls, 3);
    assert!(jobs.is_empty());
    let mut q = JobQueue::new(jobs);
    assert_eq!(q.len(), 0);
    assert!(q.take().is_none());
}
