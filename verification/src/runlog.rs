use vstd::prelude::*;
use crate::clock::now_rfc3339;
use crate::logfmt::{
    result_line, result_line_model, run_finished_line, run_finished_model, run_started_line,
    run_started_model,
};
use crate::outcome::{effective_workers_model, Config, StatusModel, WebsiteStatus};

verus! {

/// True of a line that is a run-start marker for some settings and some
/// timestamp.
pub open spec fn is_start_line(l: Seq<char>) -> bool {
    exists|w: nat, t: u64, m: u32, ts: Seq<char>| l == #[trigger] run_started_model(w, t, m, ts)
}

/// True of a line that is a run-finish marker for some timestamp.
pub open spec fn is_finish_line(l: Seq<char>) -> bool {
    exists|ts: Seq<char>| l == #[trigger] run_finished_model(ts)
}

/// The log opens with the run-start marker for exactly these settings —
/// the clamped worker count, the timeout and the retry budget — at some
/// timestamp.
pub open spec fn starts_for(log: RunLog, cfg: Config) -> bool {
    exists|ts: Seq<char>|
        log.lines_model()[0] == #[trigger] run_started_model(
            effective_workers_model(cfg),
            cfg.request_timeout_secs,
            cfg.max_retries,
            ts,
        )
}

/// The single consumer of results: collects the log lines of one run, in
/// write order. The start marker is written at creation, one structured
/// line per result as it arrives, and the finish marker at the end.
pub struct RunLog {
    lines: Vec<String>,
    records: Ghost<Seq<StatusModel>>,
    finished: bool,
}

impl RunLog {
    /// The log lines written so far, in write order.
    pub closed spec fn lines_model(self) -> Seq<Seq<char>> {
        self.lines@.map_values(|l: String| l@)
    }

    /// The results recorded so far, in arrival order.
    pub closed spec fn records(self) -> Seq<StatusModel> {
        self.records@
    }

    /// Whether the finish marker has been written.
    pub closed spec fn is_finished(self) -> bool {
        self.finished
    }

    /// The log always holds the start marker, then one line per recorded
    /// result in arrival order, then the finish marker once finished.
    pub open spec fn wf(self) -> bool {
        &&& self.lines_model().len() == self.records().len() + (if self.is_finished() {
            2int
        } else {
            1int
        })
        &&& is_start_line(self.lines_model()[0])
        &&& (forall|i: int|
            0 <= i < self.records().len() ==> self.lines_model()[i + 1] == result_line_model(
                #[trigger] self.records()[i],
            ))
        &&& (self.is_finished() ==> is_finish_line(self.lines_model().last()))
    }

    /// Opens the log with a start marker carrying the effective settings
    /// and the given timestamp.
    pub fn start_at(cfg: &Config, ts: &str) -> (log: RunLog)
        ensures
            log.wf(),
            !log.is_finished(),
            log.records() == Seq::<StatusModel>::empty(),
            log.lines_model() == seq![
                run_started_model(
                    effective_workers_model(*cfg),
                    cfg.request_timeout_secs,
                    cfg.max_retries,
                    ts@,
                ),
            ],
            starts_for(log, *cfg),
    {
        let line = run_started_line(cfg, ts);
        let mut lines: Vec<String> = Vec::new();
        lines.push(line);
        let log = RunLog { lines, records: Ghost(Seq::empty()), finished: false };
        proof {
            assert(log.lines_model() =~= seq![
                run_started_model(
                    effective_workers_model(*cfg),
                    cfg.request_timeout_secs,
                    cfg.max_retries,
                    ts@,
                ),
            ]);
        }
        log
    }

    /// Opens the log with a start marker stamped with the current time:
    /// the marker carries exactly the given settings, only its timestamp
    /// is the clock's.
    pub fn start(cfg: &Config) -> (log: RunLog)
        ensures
            log.wf(),
            !log.is_finished(),
            log.records() == Seq::<StatusModel>::empty(),
            log.lines_model().len() == 1,
            starts_for(log, *cfg),
    {
        let ts = now_rfc3339();
        Self::start_at(cfg, ts.as_str())
    }

    /// Appends the structured line for one result.
    pub fn record(&mut self, ws: &WebsiteStatus)
        requires
            old(self).wf(),
            !old(self).is_finished(),
        ensures
            final(self).wf(),
            !final(self).is_finished(),
            final(self).records() == old(self).records().push(ws@),
            final(self).lines_model() == old(self).lines_model().push(result_line_model(ws@)),
            final(self).lines_model()[0] == old(self).lines_model()[0],
    {
        let line = result_line(ws);
        self.lines.push(line);
        proof {
            self.records@ = self.records@.push(ws@);
            assert(self.lines_model() =~= old(self).lines_model().push(result_line_model(ws@)));
        }
    }

    /// Closes the log with a finish marker carrying the given timestamp.
    pub fn finish_at(&mut self, ts: &str)
        requires
            old(self).wf(),
            !old(self).is_finished(),
        ensures
            final(self).wf(),
            final(self).is_finished(),
            final(self).records() == old(self).records(),
            final(self).lines_model() == old(self).lines_model().push(run_finished_model(ts@)),
            final(self).lines_model()[0] == old(self).lines_model()[0],
    {
        let line = run_finished_line(ts);
        self.lines.push(line);
        self.finished = true;
        proof {
            assert(self.lines_model() =~= old(self).lines_model().push(run_finished_model(ts@)));
        }
    }

    /// Closes the log with a finish marker stamped with the current time.
    pub fn finish(&mut self)
        requires
            old(self).wf(),
            !old(self).is_finished(),
        ensures
            final(self).wf(),
            final(self).is_finished(),
            final(self).records() == old(self).records(),
            final(self).lines_model().len() == old(self).lines_model().len() + 1,
            final(self).lines_model().drop_last() == old(self).lines_model(),
            final(self).lines_model()[0] == old(self).lines_model()[0],
    {
        let ts = now_rfc3339();
        self.finish_at(ts.as_str());
        proof {
            assert(self.lines_model().drop_last() =~= old(self).lines_model());
        }
    }

    /// The lines written so far.
    pub fn lines(&self) -> (r: &Vec<String>)
        ensures
            r@.map_values(|l: String| l@) == self.lines_model(),
    {
        &self.lines
    }

    /// How many lines have been written.
    pub fn line_count(&self) -> (r: usize)
        ensures
            r == self.lines_model().len(),
    {
        self.lines.len()
    }
}

/// Log shape: a finished log over `n` results holds exactly `n + 2`
/// lines; the start marker is first, the `n` result lines follow in
/// arrival order, and the finish marker is last.
pub proof fn lemma_log_shape(log: RunLog)
    requires
        log.wf(),
        log.is_finished(),
    ensures
        log.lines_model().len() == log.records().len() + 2,
        is_start_line(log.lines_model()[0]),
        forall|i: int|
            0 <= i < log.records().len() ==> log.lines_model()[i + 1] == result_line_model(
                #[trigger] log.records()[i],
            ),
        is_finish_line(log.lines_model().last()),
{
}

} // verus!
