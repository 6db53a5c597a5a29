use vstd::prelude::*;

verus! {

/// Mathematical model of one attempt's classification: the view of
/// [`CheckOutcome`], with the reason text as a sequence of characters.
pub enum OutcomeModel {
    Reached(u16),
    Unreachable(Seq<char>),
}

/// One network check attempt either reaches the server (any HTTP status,
/// error codes included) or fails at the transport level.
#[derive(Clone, Debug)]
pub enum CheckOutcome {
    Reached(u16),
    Unreachable(String),
}

impl View for CheckOutcome {
    type V = OutcomeModel;

    open spec fn view(&self) -> OutcomeModel {
        match self {
            CheckOutcome::Reached(code) => OutcomeModel::Reached(*code),
            CheckOutcome::Unreachable(reason) => OutcomeModel::Unreachable(reason@),
        }
    }
}

impl CheckOutcome {
    /// True exactly when the attempt got an HTTP response, of any status.
    pub fn is_reached(&self) -> (r: bool)
        ensures
            r == (self@ is Reached),
    {
        match self {
            CheckOutcome::Reached(_) => true,
            CheckOutcome::Unreachable(_) => false,
        }
    }
}

/// Model of one completed attempt: its classification and how long it took.
pub struct AttemptModel {
    pub outcome: OutcomeModel,
    pub elapsed_ms: u64,
}

/// One completed attempt: its classification and its elapsed time in
/// milliseconds.
#[derive(Clone, Debug)]
pub struct AttemptRecord {
    pub outcome: CheckOutcome,
    pub elapsed_ms: u64,
}

impl View for AttemptRecord {
    type V = AttemptModel;

    open spec fn view(&self) -> AttemptModel {
        AttemptModel { outcome: self.outcome@, elapsed_ms: self.elapsed_ms }
    }
}

/// Model of a job: the target and the retry budget.
pub struct JobModel {
    pub url: Seq<char>,
    pub max_retries: u32,
}

/// A unit of work: one target URL together with the number of additional
/// attempts permitted after the first.
#[derive(Clone, Debug)]
pub struct Job {
    pub url: String,
    pub max_retries: u32,
}

impl View for Job {
    type V = JobModel;

    open spec fn view(&self) -> JobModel {
        JobModel { url: self.url@, max_retries: self.max_retries }
    }
}

/// Model of a finished target: URL, last outcome, last attempt's elapsed
/// time, and the completion timestamp text.
pub struct StatusModel {
    pub url: Seq<char>,
    pub outcome: OutcomeModel,
    pub elapsed_ms: u64,
    pub timestamp: Seq<char>,
}

/// The final record for one target: the outcome and elapsed time of the
/// last attempt made, and the wall-clock timestamp of completion.
#[derive(Clone, Debug)]
pub struct WebsiteStatus {
    pub url: String,
    pub outcome: CheckOutcome,
    pub elapsed_ms: u64,
    pub timestamp: String,
}

impl WebsiteStatus {
    /// The final record for one job: its last attempt's outcome and
    /// elapsed time, stamped with the completion time of the clock.
    pub fn from_attempt(url: String, attempt: AttemptRecord) -> (r: WebsiteStatus)
        ensures
            r.url@ == url@,
            r.outcome@ == attempt.outcome@,
            r.elapsed_ms == attempt.elapsed_ms,
    {
        let timestamp = crate::clock::now_rfc3339();
        WebsiteStatus { url, outcome: attempt.outcome, elapsed_ms: attempt.elapsed_ms, timestamp }
    }
}

impl View for WebsiteStatus {
    type V = StatusModel;

    open spec fn view(&self) -> StatusModel {
        StatusModel {
            url: self.url@,
            outcome: self.outcome@,
            elapsed_ms: self.elapsed_ms,
            timestamp: self.timestamp@,
        }
    }
}

/// Run settings, read once at start and never changed during a run.
#[derive(Clone, Debug)]
pub struct Config {
    pub worker_threads: usize,
    pub request_timeout_secs: u64,
    pub max_retries: u32,
    pub log_file: String,
}

/// The worker count a run actually uses for these settings: the
/// configured value, clamped upward so that at least one worker runs.
pub open spec fn effective_workers_model(cfg: Config) -> nat {
    if cfg.worker_threads < 1 {
        1nat
    } else {
        cfg.worker_threads as nat
    }
}

impl Config {
    /// The worker count actually used: the configured value, clamped
    /// upward so that at least one worker runs.
    pub fn effective_workers(&self) -> (r: usize)
        ensures
            r as nat == effective_workers_model(*self),
            r >= 1,
    {
        if self.worker_threads < 1 {
            1
        } else {
            self.worker_threads
        }
    }
}

} // verus!
