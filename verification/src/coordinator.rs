use vstd::prelude::*;
use crate::dispatch::{jobs_model, make_jobs, JobQueue};
use crate::outcome::{AttemptModel, AttemptRecord, Config, WebsiteStatus};
use crate::retry::{allowed_attempts, run_result, RetryController};
use crate::runlog::{starts_for, RunLog};

verus! {

/// The attempt models of one job's script: what each successive check
/// attempt would yield.
pub open spec fn script_model(s: Vec<AttemptRecord>) -> Seq<AttemptModel> {
    s@.map_values(|a: AttemptRecord| a@)
}

/// Runs a whole check sequentially against scripted attempt outcomes:
/// one job per target in input order, each driven by the retry
/// controller under the configured budget, each result logged between
/// the run markers. An empty target list yields no log at all. Each
/// script must offer at least a full allowance of attempts; the run
/// stops earlier wherever an attempt reaches the server.
pub fn run_scripted(cfg: &Config, targets: &Vec<String>, scripts: Vec<Vec<AttemptRecord>>) -> (r:
    Option<RunLog>)
    requires
        scripts@.len() == targets@.len(),
        forall|i: int|
            0 <= i < scripts@.len() ==> script_model(#[trigger] scripts@[i]).len()
                >= allowed_attempts(cfg.max_retries),
    ensures
        (r is None) == (targets@.len() == 0),
        match r {
            Some(log) => {
                &&& log.wf()
                &&& log.is_finished()
                &&& starts_for(log, *cfg)
                &&& log.records().len() == targets@.len()
                &&& log.lines_model().len() == targets@.len() + 2
                &&& forall|i: int|
                    0 <= i < targets@.len() ==> {
                        let rec = #[trigger] log.records()[i];
                        let attempt = run_result(cfg.max_retries, script_model(scripts@[i]));
                        rec.url == targets@[i]@ && rec.outcome == attempt.outcome
                            && rec.elapsed_ms == attempt.elapsed_ms
                    }
            },
            None => true,
        },
{
    let n = targets.len();
    if n == 0 {
        return None;
    }
    let ghost all_scripts = scripts@.map_values(|s: Vec<AttemptRecord>| script_model(s));
    let ghost targets_model = targets@.map_values(|u: String| u@);
    let budget = cfg.max_retries;
    let mut scripts = scripts;
    let mut log = RunLog::start(cfg);
    let mut q = JobQueue::new(make_jobs(targets, budget));
    let mut i: usize = 0;
    proof {
        assert(q.remaining() =~= jobs_model(targets_model, budget).skip(0));
        assert(scripts@.map_values(|s: Vec<AttemptRecord>| script_model(s)) =~= all_scripts.skip(
            0,
        ));
    }
    while i < n
        invariant
            n == targets@.len(),
            i <= n,
            budget == cfg.max_retries,
            targets_model == targets@.map_values(|u: String| u@),
            all_scripts.len() == n,
            forall|k: int|
                0 <= k < n ==> (#[trigger] all_scripts[k]).len() >= allowed_attempts(budget),
            scripts@.map_values(|s: Vec<AttemptRecord>| script_model(s)) == all_scripts.skip(
                i as int,
            ),
            q.remaining() == jobs_model(targets_model, budget).skip(i as int),
            log.wf(),
            !log.is_finished(),
            starts_for(log, *cfg),
            log.records().len() == i,
            forall|k: int|
                0 <= k < i ==> {
                    let rec = #[trigger] log.records()[k];
                    let attempt = run_result(budget, all_scripts[k]);
                    rec.url == targets_model[k] && rec.outcome == attempt.outcome
                        && rec.elapsed_ms == attempt.elapsed_ms
                },
        decreases n - i,
    {
        let job = match q.take() {
            Some(job) => job,
            None => vstd::pervasive::unreached(),
        };
        proof {
            assert(jobs_model(targets_model, budget).skip(i as int)[0] == jobs_model(
                targets_model,
                budget,
            )[i as int]);
            assert(q.remaining() =~= jobs_model(targets_model, budget).skip(i + 1));
            assert(scripts@.map_values(|s: Vec<AttemptRecord>| script_model(s)).len()
                == scripts@.len());
            assert(all_scripts.skip(i as int).len() == n - i);
            assert(scripts@.map_values(|s: Vec<AttemptRecord>| script_model(s))[0]
                == all_scripts[i as int]);
            assert(script_model(scripts@[0]) == all_scripts[i as int]);
        }
        let ghost full = all_scripts[i as int];
        let ghost pre_scripts = scripts@;
        let mut script = scripts.remove(0);
        proof {
            assert(script == pre_scripts[0]);
            assert(scripts@ =~= pre_scripts.drop_first());
        }
        proof {
            assert(script_model(script) == full);
            assert forall|k: int| 0 <= k < scripts@.len() implies scripts@.map_values(
                |s: Vec<AttemptRecord>| script_model(s),
            )[k] == #[trigger] all_scripts.skip(i + 1)[k] by {
                assert(scripts@[k] == pre_scripts[k + 1]);
                assert(pre_scripts.map_values(|s: Vec<AttemptRecord>| script_model(s))[k + 1]
                    == script_model(pre_scripts[k + 1]));
                assert(all_scripts.skip(i + 1)[k] == all_scripts.skip(i as int)[k + 1]);
            }
            assert(scripts@.map_values(|s: Vec<AttemptRecord>| script_model(s)) =~= all_scripts.skip(
                i + 1,
            ));
        }
        let mut c = RetryController::new(budget);
        proof {
            assert(c.history() + script_model(script) =~= full);
        }
        while c.needs_attempt()
            invariant
                c.wf(),
                c.budget() == budget,
                full.len() >= allowed_attempts(budget),
                c.history() + script_model(script) == full,
                c.attempts_made() + script@.len() == full.len(),
            decreases script@.len(),
        {
            proof {
                assert(c.attempts_made() < allowed_attempts(budget));
                assert(script@.len() > 0);
            }
            let ghost pre_hist = c.history();
            let ghost pre_script_model = script_model(script);
            let a = script.remove(0);
            let ghost am = a@;
            proof {
                assert(pre_script_model =~= seq![am] + script_model(script));
            }
            c.record_attempt(a.outcome, a.elapsed_ms);
            proof {
                assert(c.history() =~= pre_hist.push(am));
                assert(pre_hist.push(am) + script_model(script) =~= pre_hist + (seq![am]
                    + script_model(script)));
                assert(pre_hist + pre_script_model == full);
                assert(c.history() + script_model(script) =~= full);
            }
        }
        proof {
            c.lemma_matches_run(script_model(script));
        }
        let rec = c.take_result();
        proof {
            assert(run_result(budget, full) == c.history().last());
        }
        let ws = WebsiteStatus::from_attempt(job.url, rec);
        log.record(&ws);
        proof {
            assert(jobs_model(targets_model, budget)[i as int].url == targets_model[i as int]);
        }
        i = i + 1;
    }
    log.finish();
    Some(log)
}

} // verus!
