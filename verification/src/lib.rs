//! A concurrent URL health-check engine, verified: jobs pair a target
//! with a retry budget, a retry controller stops at the first attempt
//! that reaches the server or when the budget is spent, a shared queue
//! hands each job out exactly once, and a single collector writes the
//! run's structured log — one start marker, one line per target, one
//! finish marker. The thread pool, the network calls and the file I/O
//! live outside the library; every decision they carry out is proved
//! here, for any pool size and any interleaving.

pub mod books;
pub mod clock;
pub mod coordinator;
pub mod dispatch;
pub mod logfmt;
pub mod numbers;
pub mod outcome;
pub mod pricing;
pub mod retry;
pub mod runlog;
pub mod strfmt;
pub mod targets;
pub mod words;
