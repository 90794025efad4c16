//! Run counters and the conditions that are decided from them alone.
use vstd::prelude::*;

use crate::stages::Condition;

verus! {

/// How many iterations have completed and how many evaluations were spent.
#[derive(Debug, Clone, Copy, PartialEq, Eq, Structural)]
pub struct Counters {
    pub iterations: u64,
    pub evaluations: u64,
}

impl Counters {
    /// Counters of a run that has not started.
    pub fn new() -> (r: Counters)
        ensures
            r.iterations == 0,
            r.evaluations == 0,
    {
        Counters { iterations: 0, evaluations: 0 }
    }

    /// Counts a batch of `n` evaluations; the count never goes down.
    pub fn record_evaluations(&mut self, n: u64)
        requires
            old(self).evaluations + n <= u64::MAX,
        ensures
            final(self).evaluations == old(self).evaluations + n,
            final(self).evaluations >= old(self).evaluations,
            final(self).iterations == old(self).iterations,
    {
        self.evaluations = self.evaluations + n;
    }

    /// Counts a completed iteration.
    pub fn next_iteration(&mut self)
        requires
            old(self).iterations < u64::MAX,
        ensures
            final(self).iterations == old(self).iterations + 1,
            final(self).evaluations == old(self).evaluations,
    {
        self.iterations = self.iterations + 1;
    }
}

/// True on every `n`-th count, counting from zero; never for a period of
/// zero.
pub open spec fn every_spec(count: nat, n: nat) -> bool {
    n > 0 && count % n == 0
}

/// True on every `n`-th count; never for a period of zero.
pub fn every(count: u64, n: u64) -> (r: bool)
    ensures
        r == every_spec(count as nat, n as nat),
{
    n > 0 && count % n == 0
}

/// What a condition says of the counters, where they alone decide it;
/// `None` for the conditions over objective values and diversity.
pub open spec fn counter_condition_spec<R>(c: Condition<R>, k: Counters) -> Option<bool> {
    match c {
        Condition::LessThanEvaluations(n) => Some(k.evaluations < n),
        Condition::EveryIterations(n) => Some(every_spec(k.iterations as nat, n as nat)),
        Condition::EveryEvaluations(n) => Some(every_spec(k.evaluations as nat, n as nat)),
        _ => None,
    }
}

/// Decides a condition from the counters, where they alone decide it.
pub fn counter_condition<R>(c: &Condition<R>, k: &Counters) -> (r: Option<bool>)
    ensures
        r == counter_condition_spec(*c, *k),
{
    match c {
        Condition::LessThanEvaluations(n) => Some(k.evaluations < *n as u64),
        Condition::EveryIterations(n) => Some(every(k.iterations, *n as u64)),
        Condition::EveryEvaluations(n) => Some(every(k.evaluations, *n as u64)),
        _ => None,
    }
}

/// Detects a best objective value that has not changed over a window of
/// evaluations.
pub struct Stagnation {
    pub window: u64,
    /// The evaluation count at the last change of the watched value.
    pub last_change: u64,
}

impl Stagnation {
    /// A detector for `window` evaluations without change, counting from the
    /// start of the run.
    pub fn new(window: u64) -> (r: Stagnation)
        ensures
            r.window == window,
            r.last_change == 0,
    {
        Stagnation { window, last_change: 0 }
    }

    /// Takes the evaluation count and whether the watched value changed
    /// since the last call; says whether it has now stood still for at
    /// least `window` evaluations.
    pub fn observe(&mut self, evaluations: u64, changed: bool) -> (r: bool)
        requires
            old(self).last_change <= evaluations,
        ensures
            final(self).window == old(self).window,
            changed ==> final(self).last_change == evaluations && !r,
            !changed ==> final(self).last_change == old(self).last_change && r == (evaluations
                - old(self).last_change >= old(self).window),
    {
        if changed {
            self.last_change = evaluations;
            false
        } else {
            evaluations - self.last_change >= self.window
        }
    }
}

/// A loop under an evaluation budget halts: where each pass spends at least
/// one evaluation and starts only while fewer than `budget` were spent
/// (`counts[i]` is the count before pass `i`), there are at most `budget`
/// passes, and the count never goes down.
pub proof fn lemma_budget_halts(counts: Seq<int>, budget: int)
    requires
        budget >= 0,
        counts.len() >= 1,
        counts[0] >= 0,
        forall|i: int| 0 <= i < counts.len() - 1 ==> #[trigger] counts[i] < budget,
        forall|i: int| 0 <= i < counts.len() - 1 ==> counts[i + 1] >= #[trigger] counts[i] + 1,
    ensures
        counts.len() - 1 <= budget,
        forall|i: int, j: int| 0 <= i <= j < counts.len() ==> counts[i] <= counts[j],
{
    assert forall|i: int, j: int| 0 <= i <= j < counts.len() implies counts[i] <= counts[j] by {
        lemma_counts_grow(counts, i, j);
    }
    if counts.len() > 1 {
        let last = counts.len() - 1;
        lemma_counts_grow(counts, 0, last - 1);
        assert(counts[last - 1] < budget);
    }
}

/// Between passes `i` and `j` the count has grown by at least `j - i`.
proof fn lemma_counts_grow(counts: Seq<int>, i: int, j: int)
    requires
        0 <= i <= j < counts.len(),
        forall|k: int| 0 <= k < counts.len() - 1 ==> counts[k + 1] >= #[trigger] counts[k] + 1,
    ensures
        counts[j] >= counts[i] + (j - i),
    decreases j - i,
{
    if i < j {
        lemma_counts_grow(counts, i, j - 1);
        assert(counts[j] >= counts[j - 1] + 1);
    }
}

} // verus!
