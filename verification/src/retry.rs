use vstd::prelude::*;
use crate::outcome::{AttemptModel, AttemptRecord, CheckOutcome, OutcomeModel};

verus! {

/// How many attempts a job with this retry budget may make in all: the
/// budget counts additional attempts beyond the first, saturating at the
/// machine limit as the attempt counter itself does.
pub open spec fn allowed_attempts(budget: u32) -> nat {
    if budget == u32::MAX {
        u32::MAX as nat
    } else {
        (budget + 1) as nat
    }
}

/// Index of the first outcome that reached the server, or the length of
/// the sequence if none did.
pub open spec fn first_reached(outcomes: Seq<OutcomeModel>) -> nat
    decreases outcomes.len(),
{
    if outcomes.len() == 0 {
        0
    } else if outcomes[0] is Reached {
        0
    } else {
        1 + first_reached(outcomes.drop_first())
    }
}

/// The number of attempts a run makes, given the outcome each successive
/// attempt would have: it stops at the first attempt that reaches the
/// server, and never exceeds the allowance.
pub open spec fn attempts_used(budget: u32, outcomes: Seq<OutcomeModel>) -> nat {
    if first_reached(outcomes) + 1 <= allowed_attempts(budget) {
        first_reached(outcomes) + 1
    } else {
        allowed_attempts(budget)
    }
}

/// The outcomes alone of a sequence of attempts.
pub open spec fn outcomes_of(attempts: Seq<AttemptModel>) -> Seq<OutcomeModel> {
    attempts.map_values(|a: AttemptModel| a.outcome)
}

/// The attempt a run returns: the last one it makes.
pub open spec fn run_result(budget: u32, attempts: Seq<AttemptModel>) -> AttemptModel {
    attempts[attempts_used(budget, outcomes_of(attempts)) - 1]
}

proof fn lemma_first_reached_at(s: Seq<OutcomeModel>, k: int)
    requires
        0 <= k < s.len(),
        s[k] is Reached,
        forall|i: int| 0 <= i < k ==> !(#[trigger] s[i] is Reached),
    ensures
        first_reached(s) == k,
    decreases k,
{
    if k > 0 {
        lemma_first_reached_at(s.drop_first(), k - 1);
    }
}

proof fn lemma_first_reached_beyond(s: Seq<OutcomeModel>, k: int)
    requires
        0 <= k <= s.len(),
        forall|i: int| 0 <= i < k ==> !(#[trigger] s[i] is Reached),
    ensures
        first_reached(s) >= k,
    decreases k,
{
    if k > 0 {
        lemma_first_reached_beyond(s.drop_first(), k - 1);
    }
}

/// Attempt bound: a run always makes at least one attempt and at most
/// `budget + 1` attempts, whatever the attempts' outcomes.
pub proof fn lemma_attempt_bound(budget: u32, outcomes: Seq<OutcomeModel>)
    ensures
        1 <= attempts_used(budget, outcomes),
        attempts_used(budget, outcomes) <= allowed_attempts(budget),
        attempts_used(budget, outcomes) <= budget as nat + 1,
{
}

/// Early stop: if attempt `k` (1-based, within the allowance) is the first
/// to reach the server, the run stops there: exactly `k` attempts are made
/// and the returned outcome and time are attempt `k`'s.
pub proof fn lemma_early_stop(budget: u32, attempts: Seq<AttemptModel>, k: nat)
    requires
        1 <= k <= allowed_attempts(budget),
        k <= attempts.len(),
        attempts[k - 1].outcome is Reached,
        forall|i: int| 0 <= i < k - 1 ==> !(#[trigger] attempts[i].outcome is Reached),
    ensures
        attempts_used(budget, outcomes_of(attempts)) == k,
        run_result(budget, attempts) == attempts[k - 1],
{
    let outs = outcomes_of(attempts);
    assert(forall|i: int| 0 <= i < k - 1 ==> !(#[trigger] outs[i] is Reached));
    lemma_first_reached_at(outs, k - 1);
}

/// Exhaustion: if every attempt in the allowance fails at transport level,
/// the run makes exactly the full allowance of attempts and returns the
/// last one.
pub proof fn lemma_exhaustion(budget: u32, attempts: Seq<AttemptModel>)
    requires
        attempts.len() >= allowed_attempts(budget),
        forall|i: int| 0 <= i < attempts.len() ==> !(#[trigger] attempts[i].outcome is Reached),
    ensures
        attempts_used(budget, outcomes_of(attempts)) == allowed_attempts(budget),
        run_result(budget, attempts) == attempts[allowed_attempts(budget) - 1],
{
    let outs = outcomes_of(attempts);
    assert(forall|i: int| 0 <= i < outs.len() ==> !(#[trigger] outs[i] is Reached));
    lemma_first_reached_beyond(outs, outs.len() as int);
}

/// Drives one job's attempts: repeats the check until an attempt reaches
/// the server or the allowance is spent, and keeps the last attempt made.
pub struct RetryController {
    budget: u32,
    attempts: u32,
    last: Option<AttemptRecord>,
    history: Ghost<Seq<AttemptModel>>,
}

impl RetryController {
    /// The job's retry budget.
    pub closed spec fn budget(self) -> u32 {
        self.budget
    }

    /// How many attempts have been recorded so far.
    pub closed spec fn attempts_made(self) -> nat {
        self.attempts as nat
    }

    /// Every attempt recorded so far, in order.
    pub closed spec fn history(self) -> Seq<AttemptModel> {
        self.history@
    }

    /// The most recent attempt recorded, if any.
    pub closed spec fn last_attempt(self) -> Option<AttemptModel> {
        match self.last {
            Some(a) => Some(a@),
            None => None,
        }
    }

    /// The controller stops once an attempt reached the server or the
    /// allowance is spent.
    pub open spec fn done(self) -> bool {
        match self.last_attempt() {
            Some(a) => a.outcome is Reached || self.attempts_made() >= allowed_attempts(
                self.budget(),
            ),
            None => false,
        }
    }

    pub open spec fn wf(self) -> bool {
        &&& self.attempts_made() == self.history().len()
        &&& self.attempts_made() <= allowed_attempts(self.budget())
        &&& (self.history().len() > 0 ==> self.last_attempt() == Some(self.history().last()))
        &&& (self.history().len() == 0 ==> self.last_attempt() is None)
        &&& (forall|i: int|
            0 <= i < self.history().len() - 1 ==> !(#[trigger] self.history()[i].outcome
                is Reached))
    }

    pub fn new(budget: u32) -> (r: Self)
        ensures
            r.wf(),
            r.budget() == budget,
            r.attempts_made() == 0,
            r.history() == Seq::<AttemptModel>::empty(),
            !r.done(),
    {
        RetryController { budget, attempts: 0, last: None, history: Ghost(Seq::empty()) }
    }

    /// Whether another attempt must be made.
    pub fn needs_attempt(&self) -> (r: bool)
        requires
            self.wf(),
        ensures
            r == !self.done(),
    {
        match &self.last {
            None => true,
            Some(a) => !a.outcome.is_reached() && self.attempts <= self.budget
                && self.attempts < u32::MAX,
        }
    }

    /// Record the classification and elapsed time of the attempt just made.
    pub fn record_attempt(&mut self, outcome: CheckOutcome, elapsed_ms: u64)
        requires
            old(self).wf(),
            !old(self).done(),
        ensures
            final(self).wf(),
            final(self).budget() == old(self).budget(),
            final(self).attempts_made() == old(self).attempts_made() + 1,
            final(self).history() == old(self).history().push(
                AttemptModel { outcome: outcome@, elapsed_ms },
            ),
            final(self).last_attempt() == Some(AttemptModel { outcome: outcome@, elapsed_ms }),
            final(self).done() == (outcome@ is Reached || final(self).attempts_made()
                == allowed_attempts(old(self).budget())),
    {
        self.attempts = self.attempts + 1;
        proof {
            self.history@ = self.history@.push(AttemptModel { outcome: outcome@, elapsed_ms });
        }
        self.last = Some(AttemptRecord { outcome, elapsed_ms });
    }

    /// The run's result: the last attempt made.
    pub fn take_result(self) -> (r: AttemptRecord)
        requires
            self.wf(),
            self.done(),
        ensures
            Some(r@) == self.last_attempt(),
            r@ == self.history().last(),
    {
        match self.last {
            Some(a) => a,
            None => vstd::pervasive::unreached(),
        }
    }

    /// A finished controller agrees with the run model: however the unmade
    /// attempts would have gone, the run uses exactly the attempts this
    /// controller recorded and returns the last of them.
    pub proof fn lemma_matches_run(self, rest: Seq<AttemptModel>)
        requires
            self.wf(),
            self.done(),
        ensures
            attempts_used(self.budget(), outcomes_of(self.history() + rest))
                == self.history().len(),
            run_result(self.budget(), self.history() + rest) == self.history().last(),
    {
        let all = self.history() + rest;
        let n = self.history().len();
        assert(forall|i: int|
            0 <= i < n - 1 ==> !(#[trigger] all[i].outcome is Reached));
        if self.history().last().outcome is Reached {
            assert(all[n - 1].outcome is Reached);
            lemma_early_stop(self.budget, all, n);
        } else {
            assert(self.attempts_made() >= allowed_attempts(self.budget()));
            let outs = outcomes_of(all);
            assert(forall|i: int| 0 <= i < n ==> !(#[trigger] outs[i] is Reached));
            lemma_first_reached_beyond(outs, n as int);
        }
        assert(all[n - 1] == self.history().last());
    }
}

} // verus!
