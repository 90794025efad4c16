//! The global best, tracked over order keys of objective values.
//!
//! The driver maps each objective value to a `u64` key whose order is the
//! order of the values (lower is better), so the choice of the best is made
//! here on integers.
use vstd::prelude::*;

verus! {

/// The least key of `keys`, or `u64::MAX` for none.
pub open spec fn min_key(keys: Seq<u64>) -> u64
    decreases keys.len(),
{
    if keys.len() == 0 {
        u64::MAX
    } else {
        let rest = min_key(keys.drop_last());
        if keys.last() < rest {
            keys.last()
        } else {
            rest
        }
    }
}

/// The best key after a batch: the least of the old best and the batch.
pub open spec fn new_best(current: Option<u64>, keys: Seq<u64>) -> Option<u64> {
    match current {
        None => if keys.len() == 0 {
            None
        } else {
            Some(min_key(keys))
        },
        Some(c) => Some(if min_key(keys) < c {
            min_key(keys)
        } else {
            c
        }),
    }
}

proof fn lemma_min_key(keys: Seq<u64>)
    ensures
        forall|i: int| 0 <= i < keys.len() ==> min_key(keys) <= #[trigger] keys[i],
        keys.len() > 0 ==> exists|i: int| 0 <= i < keys.len() && min_key(keys) == #[trigger] keys[i],
    decreases keys.len(),
{
    if keys.len() > 0 {
        let front = keys.drop_last();
        lemma_min_key(front);
        assert forall|i: int| 0 <= i < keys.len() implies min_key(keys) <= #[trigger] keys[i] by {
            if i < front.len() {
                assert(front[i] == keys[i]);
            }
        }
        if keys.last() >= min_key(front) && front.len() > 0 {
            let i = choose|i: int| 0 <= i < front.len() && min_key(front) == #[trigger] front[i];
            assert(keys[i] == front[i]);
        } else {
            assert(keys[keys.len() - 1] == keys.last());
        }
    }
}

/// The index of the first batch entry that improves strictly on `current`
/// and is least in the batch; `None` where no entry improves.
pub fn improving_index(current: Option<u64>, keys: &Vec<u64>) -> (r: Option<usize>)
    ensures
        r matches Some(i) ==> i < keys.len() && keys@[i as int] == min_key(keys@) && (forall|
            j: int,
        | 0 <= j < i ==> keys@[j] > keys@[i as int]) && (current matches Some(c) ==> keys@[i as int]
            < c),
        r is None <==> keys.len() == 0 || (current matches Some(c) && min_key(keys@) >= c),
        new_best(current, keys@) == match r {
            Some(i) => Some(keys@[i as int]),
            None => current,
        },
{
    let mut best: Option<usize> = None;
    let mut i: usize = 0;
    while i < keys.len()
        invariant
            i <= keys.len(),
            best matches Some(b) ==> b < i && keys@[b as int] == min_key(keys@.take(i as int)) && (
            forall|j: int| 0 <= j < b ==> keys@[j] > keys@[b as int]),
            best is None <==> i == 0,
        decreases keys.len() - i,
    {
        proof {
            assert(keys@.take(i + 1).drop_last() =~= keys@.take(i as int));
            assert(keys@.take(i + 1).last() == keys@[i as int]);
            assert(min_key(keys@.take(i + 1)) == if keys@[i as int] < min_key(keys@.take(i as int)) {
                keys@[i as int]
            } else {
                min_key(keys@.take(i as int))
            });
            if i == 0 {
                assert(keys@.take(0).len() == 0);
            }
        }
        match best {
            None => {
                best = Some(i);
            },
            Some(b) => {
                if keys[i] < keys[b] {
                    best = Some(i);
                    proof {
                        lemma_min_key(keys@.take(i as int));
                        assert forall|j: int| 0 <= j < i implies keys@[j] > keys@[i as int] by {
                            assert(keys@.take(i as int)[j] == keys@[j]);
                        }
                    }
                }
            },
        }
        i = i + 1;
    }
    proof {
        assert(keys@.take(keys.len() as int) =~= keys@);
    }
    match best {
        None => None,
        Some(b) => {
            match current {
                None => Some(b),
                Some(c) => if keys[b] < c {
                    Some(b)
                } else {
                    None
                },
            }
        },
    }
}

/// The best key never regresses: after any batch it is at most the key
/// before it, and at most every key of the batch.
pub proof fn lemma_best_never_regresses(current: Option<u64>, keys: Seq<u64>)
    ensures
        current matches Some(c) ==> (new_best(current, keys) matches Some(n) && n <= c),
        forall|i: int|
            0 <= i < keys.len() ==> (new_best(current, keys) matches Some(n) && n <= #[trigger] keys[i]),
{
    lemma_min_key(keys);
}

/// Which trials survive into the next generation: a trial replaces its
/// parent where its key is at most the parent's.
pub fn kept_trials(parents: &Vec<u64>, trials: &Vec<u64>) -> (r: Vec<bool>)
    requires
        parents.len() == trials.len(),
    ensures
        r.len() == parents.len(),
        forall|i: int| 0 <= i < r.len() ==> #[trigger] r@[i] == (trials@[i] <= parents@[i]),
{
    let mut r: Vec<bool> = Vec::new();
    let mut i: usize = 0;
    while i < parents.len()
        invariant
            i <= parents.len(),
            parents.len() == trials.len(),
            r.len() == i,
            forall|j: int| 0 <= j < i ==> #[trigger] r@[j] == (trials@[j] <= parents@[j]),
        decreases parents.len() - i,
    {
        r.push(trials[i] <= parents[i]);
        i = i + 1;
    }
    r
}

} // verus!
