//! DE crossover: which dimensions of a trial come from the mutant.
//!
//! The Bernoulli draws against the crossover rate are taken by the caller;
//! `accept[d]` says whether the draw for dimension `d` fell below the rate.
use vstd::prelude::*;

verus! {

/// Binomial crossover: dimension `d` comes from the mutant where its draw
/// accepts, and dimension `forced` always does.
pub open spec fn binomial_spec(accept: Seq<bool>, forced: int) -> Seq<bool> {
    Seq::new(accept.len(), |d: int| accept[d] || d == forced)
}

/// The number of draws in a row, from the first, that accept.
pub open spec fn leading_accepts(accept: Seq<bool>) -> nat
    decreases accept.len(),
{
    if accept.len() == 0 || !accept[0] {
        0
    } else {
        1 + leading_accepts(accept.drop_first())
    }
}

/// The length of the exponential crossover block: one dimension, plus one
/// for each accepting draw in a row, but never more than `dim`.
pub open spec fn block_len(accept: Seq<bool>, dim: nat) -> nat {
    if 1 + leading_accepts(accept) < dim {
        1 + leading_accepts(accept)
    } else {
        dim
    }
}

/// Exponential crossover: the block of `block_len` dimensions that starts at
/// `start` and wraps around past the last dimension.
pub open spec fn exponential_spec(dim: nat, start: int, accept: Seq<bool>) -> Seq<bool> {
    Seq::new(dim, |d: int| (d - start) % (dim as int) < block_len(accept, dim))
}

/// The trial: each dimension from the mutant where the mask says so, else
/// from the parent.
pub open spec fn trial_spec<T>(parent: Seq<T>, mutant: Seq<T>, mask: Seq<bool>) -> Seq<T> {
    Seq::new(parent.len(), |d: int| if mask[d] { mutant[d] } else { parent[d] })
}

/// The binomial crossover mask.
pub fn binomial_mask(accept: &Vec<bool>, forced: usize) -> (r: Vec<bool>)
    requires
        forced < accept.len(),
    ensures
        r@ == binomial_spec(accept@, forced as int),
{
    let mut r: Vec<bool> = Vec::new();
    let mut d: usize = 0;
    while d < accept.len()
        invariant
            d <= accept.len(),
            r@ == binomial_spec(accept@, forced as int).take(d as int),
        decreases accept.len() - d,
    {
        r.push(accept[d] || d == forced);
        d = d + 1;
        assert(r@ =~= binomial_spec(accept@, forced as int).take(d as int));
    }
    assert(r@ =~= binomial_spec(accept@, forced as int));
    r
}

/// The number of accepting draws in a row, from the first.
pub fn count_leading_accepts(accept: &Vec<bool>) -> (r: usize)
    ensures
        r == leading_accepts(accept@),
{
    let mut k: usize = 0;
    assert(accept@.skip(0) =~= accept@);
    while k < accept.len() && accept[k]
        invariant
            k <= accept.len(),
            forall|j: int| 0 <= j < k ==> accept@[j],
            leading_accepts(accept@) == k + leading_accepts(accept@.skip(k as int)),
        decreases accept.len() - k,
    {
        proof {
            let rest = accept@.skip(k as int);
            assert(rest.drop_first() =~= accept@.skip(k + 1));
        }
        k = k + 1;
    }
    proof {
        let rest = accept@.skip(k as int);
        assert(rest.len() == 0 || !rest[0]);
    }
    k
}

/// The exponential crossover mask over `dim` dimensions, from `start`.
pub fn exponential_mask(dim: usize, start: usize, accept: &Vec<bool>) -> (r: Vec<bool>)
    requires
        start < dim,
    ensures
        r@ == exponential_spec(dim as nat, start as int, accept@),
{
    let lead = count_leading_accepts(accept);
    let len: usize = if lead < dim - 1 {
        lead + 1
    } else {
        dim
    };
    assert(len == block_len(accept@, dim as nat));
    let mut r: Vec<bool> = Vec::new();
    let mut d: usize = 0;
    while d < dim
        invariant
            d <= dim,
            start < dim,
            len == block_len(accept@, dim as nat),
            r@ == exponential_spec(dim as nat, start as int, accept@).take(d as int),
        decreases dim - d,
    {
        let offset: usize = if d >= start {
            d - start
        } else {
            dim - start + d
        };
        proof {
            if d >= start {
                vstd::arithmetic::div_mod::lemma_small_mod((d - start) as nat, dim as nat);
            } else {
                vstd::arithmetic::div_mod::lemma_mod_add_multiples_vanish(
                    d - start,
                    dim as int,
                );
                vstd::arithmetic::div_mod::lemma_small_mod((dim - start + d) as nat, dim as nat);
            }
            assert(offset as int == (d - start) % (dim as int));
        }
        r.push(offset < len);
        d = d + 1;
        assert(r@ =~= exponential_spec(dim as nat, start as int, accept@).take(d as int));
    }
    assert(r@ =~= exponential_spec(dim as nat, start as int, accept@));
    r
}

/// The trial vector that `mask` makes of `parent` and `mutant`.
pub fn trial<T: Copy>(parent: &Vec<T>, mutant: &Vec<T>, mask: &Vec<bool>) -> (r: Vec<T>)
    requires
        mutant.len() == parent.len(),
        mask.len() == parent.len(),
    ensures
        r@ == trial_spec(parent@, mutant@, mask@),
{
    let mut r: Vec<T> = Vec::new();
    let mut d: usize = 0;
    while d < parent.len()
        invariant
            d <= parent.len(),
            mutant.len() == parent.len(),
            mask.len() == parent.len(),
            r@ == trial_spec(parent@, mutant@, mask@).take(d as int),
        decreases parent.len() - d,
    {
        if mask[d] {
            r.push(mutant[d]);
        } else {
            r.push(parent[d]);
        }
        d = d + 1;
        assert(r@ =~= trial_spec(parent@, mutant@, mask@).take(d as int));
    }
    assert(r@ =~= trial_spec(parent@, mutant@, mask@));
    r
}

/// With a crossover rate of one every draw accepts, and binomial crossover
/// then takes every dimension of the trial from the mutant.
pub proof fn lemma_binomial_full_rate<T>(
    parent: Seq<T>,
    mutant: Seq<T>,
    accept: Seq<bool>,
    forced: int,
)
    requires
        mutant.len() == parent.len(),
        accept.len() == parent.len(),
        0 <= forced < parent.len(),
        forall|d: int| 0 <= d < accept.len() ==> accept[d],
    ensures
        trial_spec(parent, mutant, binomial_spec(accept, forced)) == mutant,
{
    assert(trial_spec(parent, mutant, binomial_spec(accept, forced)) =~= mutant);
}

/// With a crossover rate of zero no draw accepts, and binomial crossover
/// still takes the forced dimension from the mutant: the trial is never the
/// parent unchanged where mutant and parent differ there.
pub proof fn lemma_binomial_zero_rate<T>(
    parent: Seq<T>,
    mutant: Seq<T>,
    accept: Seq<bool>,
    forced: int,
)
    requires
        mutant.len() == parent.len(),
        accept.len() == parent.len(),
        0 <= forced < parent.len(),
        forall|d: int| 0 <= d < accept.len() ==> !accept[d],
    ensures
        trial_spec(parent, mutant, binomial_spec(accept, forced))[forced] == mutant[forced],
        forall|d: int|
            0 <= d < parent.len() && d != forced ==> trial_spec(
                parent,
                mutant,
                binomial_spec(accept, forced),
            )[d] == parent[d],
        mutant[forced] != parent[forced] ==> trial_spec(
            parent,
            mutant,
            binomial_spec(accept, forced),
        ) != parent,
{
    let t = trial_spec(parent, mutant, binomial_spec(accept, forced));
    if mutant[forced] != parent[forced] {
        assert(t[forced] != parent[forced]);
    }
}

} // verus!
