use vstd::prelude::*;
use vstd::multiset::Multiset;
use crate::outcome::{Job, JobModel};

verus! {

/// The jobs the dispatcher submits: one per target, in input order, each
/// carrying the configured retry budget.
pub open spec fn jobs_model(urls: Seq<Seq<char>>, budget: u32) -> Seq<JobModel> {
    urls.map_values(|u: Seq<char>| JobModel { url: u, max_retries: budget })
}

/// Builds one job per target URL, in input order, each with the given
/// retry budget.
pub fn make_jobs(urls: &Vec<String>, budget: u32) -> (jobs: Vec<Job>)
    ensures
        jobs@.map_values(|j: Job| j@) == jobs_model(urls@.map_values(|u: String| u@), budget),
        jobs@.len() == urls@.len(),
{
    let mut jobs: Vec<Job> = Vec::new();
    let n = urls.len();
    let mut i: usize = 0;
    while i < n
        invariant
            n == urls@.len(),
            i <= n,
            jobs@.len() == i,
            forall|k: int|
                0 <= k < i ==> (#[trigger] jobs@[k])@ == (JobModel {
                    url: urls@[k]@,
                    max_retries: budget,
                }),
        decreases n - i,
    {
        let url = urls[i].clone();
        jobs.push(Job { url, max_retries: budget });
        i = i + 1;
    }
    proof {
        assert(jobs@.map_values(|j: Job| j@) =~= jobs_model(
            urls@.map_values(|u: String| u@),
            budget,
        ));
    }
    jobs
}

/// The shared job source: holds the submitted jobs and hands each out
/// exactly once, in submission order. The dispatcher fills it once; the
/// workers only take from it.
pub struct JobQueue {
    jobs: Vec<Job>,
}

impl JobQueue {
    /// The jobs not yet taken, in submission order.
    pub closed spec fn remaining(self) -> Seq<JobModel> {
        self.jobs@.map_values(|j: Job| j@)
    }

    /// Creates the source, closed over exactly the submitted jobs.
    pub fn new(jobs: Vec<Job>) -> (q: JobQueue)
        ensures
            q.remaining() == jobs@.map_values(|j: Job| j@),
    {
        JobQueue { jobs }
    }

    /// How many jobs are still waiting.
    pub fn len(&self) -> (r: usize)
        ensures
            r == self.remaining().len(),
    {
        self.jobs.len()
    }

    /// Takes the next job, or reports exhaustion: each job leaves the
    /// source exactly once, and in submission order.
    pub fn take(&mut self) -> (r: Option<Job>)
        ensures
            match r {
                Some(job) => {
                    &&& old(self).remaining().len() > 0
                    &&& job@ == old(self).remaining()[0]
                    &&& final(self).remaining() == old(self).remaining().drop_first()
                },
                None => {
                    &&& old(self).remaining().len() == 0
                    &&& final(self).remaining() == old(self).remaining()
                },
            },
    {
        if self.jobs.len() == 0 {
            None
        } else {
            let job = self.jobs.remove(0);
            proof {
                assert(self.remaining() =~= old(self).remaining().drop_first());
            }
            Some(job)
        }
    }
}

/// Model of a run in flight: the target multiset is split three ways at
/// every moment — not yet taken, taken and being worked, and completed.
pub struct EngineModel {
    pub pending: Seq<Seq<char>>,
    pub in_flight: Multiset<Seq<char>>,
    pub completed: Multiset<Seq<char>>,
}

/// The starting state: every target pending, none taken, none completed.
pub open spec fn engine_init(urls: Seq<Seq<char>>) -> EngineModel {
    EngineModel { pending: urls, in_flight: Multiset::empty(), completed: Multiset::empty() }
}

/// A worker takes the next pending job.
pub open spec fn take_step(pre: EngineModel, post: EngineModel) -> bool {
    &&& pre.pending.len() > 0
    &&& post.pending == pre.pending.drop_first()
    &&& post.in_flight == pre.in_flight.insert(pre.pending[0])
    &&& post.completed == pre.completed
}

/// A worker finishes the job it holds for `url` and publishes its result.
pub open spec fn complete_step(pre: EngineModel, post: EngineModel, url: Seq<char>) -> bool {
    &&& pre.in_flight.count(url) > 0
    &&& post.pending == pre.pending
    &&& post.in_flight == pre.in_flight.remove(url)
    &&& post.completed == pre.completed.insert(url)
}

/// Any single move a run can make, whichever worker makes it.
pub open spec fn engine_step(pre: EngineModel, post: EngineModel) -> bool {
    take_step(pre, post) || exists|url: Seq<char>| complete_step(pre, post, url)
}

/// The conservation invariant: the three parts always add up to exactly
/// the input target multiset — nothing is duplicated, nothing is lost.
pub open spec fn engine_inv(urls: Seq<Seq<char>>, s: EngineModel) -> bool {
    s.pending.to_multiset().add(s.in_flight).add(s.completed) == urls.to_multiset()
}

/// The starting state satisfies the conservation invariant.
pub proof fn lemma_init_inv(urls: Seq<Seq<char>>)
    ensures
        engine_inv(urls, engine_init(urls)),
{
    let s = engine_init(urls);
    assert(s.pending.to_multiset().add(s.in_flight).add(s.completed) =~= urls.to_multiset());
}

/// Every step of the run, by any worker in any interleaving, preserves
/// the conservation invariant.
pub proof fn lemma_step_preserves_inv(urls: Seq<Seq<char>>, pre: EngineModel, post: EngineModel)
    requires
        engine_inv(urls, pre),
        engine_step(pre, post),
    ensures
        engine_inv(urls, post),
{
    broadcast use vstd::seq_lib::group_to_multiset_ensures;
    broadcast use vstd::multiset::group_multiset_axioms;

    if take_step(pre, post) {
        let u = pre.pending[0];
        assert(pre.pending.drop_first() =~= pre.pending.remove(0));
        assert(pre.pending.remove(0).to_multiset() =~= pre.pending.to_multiset().remove(u));
        assert(pre.pending.contains(u));
        assert(pre.pending.to_multiset().count(u) > 0);
        assert(post.pending.to_multiset().add(post.in_flight).add(post.completed)
            =~= pre.pending.to_multiset().add(pre.in_flight).add(pre.completed));
    } else {
        let u = choose|url: Seq<char>| complete_step(pre, post, url);
        assert(complete_step(pre, post, u));
        assert(post.pending.to_multiset().add(post.in_flight).add(post.completed)
            =~= pre.pending.to_multiset().add(pre.in_flight).add(pre.completed));
    }
}

/// Completeness, independent of the pool size: once nothing is pending
/// and no worker holds a job, the completed results' target multiset is
/// exactly the input target multiset — one result per submitted target.
/// How many workers ran, and in what order they moved, never appears in
/// the argument.
pub proof fn lemma_run_complete(urls: Seq<Seq<char>>, s: EngineModel)
    requires
        engine_inv(urls, s),
        s.pending.len() == 0,
        s.in_flight.len() == 0,
    ensures
        s.completed == urls.to_multiset(),
        s.completed.len() == urls.len(),
{
    broadcast use vstd::seq_lib::group_to_multiset_ensures;
    broadcast use vstd::multiset::group_multiset_axioms;

    assert(s.pending.to_multiset().len() == 0);
    vstd::multiset::lemma_multiset_empty_len(s.in_flight);
    vstd::multiset::lemma_multiset_empty_len(s.pending.to_multiset());
    assert(s.pending.to_multiset().add(s.in_flight).add(s.completed) =~= s.completed);
    assert(urls.to_multiset().len() == urls.len());
}

} // verus!
