//! Donor choice for current-to-pbest mutation.
//!
//! Individuals are named by index: `0..n` is the population, and indices
//! from `n` on name archive entries. Random choices come in as uniform draws.
use vstd::prelude::*;

verus! {

/// The indices below `n` that `excluded` does not hold, in increasing order.
pub open spec fn available(n: nat, excluded: Seq<usize>) -> Seq<usize>
    decreases n,
{
    if n == 0 {
        Seq::empty()
    } else {
        let below = available((n - 1) as nat, excluded);
        if excluded.contains((n - 1) as usize) {
            below
        } else {
            below.push((n - 1) as usize)
        }
    }
}

/// The index that `draw` picks uniformly among `available(n, excluded)`.
pub open spec fn pick_spec(n: nat, excluded: Seq<usize>, draw: nat) -> Option<usize> {
    let a = available(n, excluded);
    if a.len() == 0 {
        None
    } else {
        Some(a[(draw % a.len()) as int])
    }
}

/// An index is available exactly when it is below `n` and not excluded.
pub proof fn lemma_available(n: nat, excluded: Seq<usize>, x: usize)
    requires
        n <= usize::MAX + 1,
    ensures
        available(n, excluded).contains(x) <==> (x < n && !excluded.contains(x)),
    decreases n,
{
    if n > 0 {
        lemma_available((n - 1) as nat, excluded, x);
        let below = available((n - 1) as nat, excluded);
        if !excluded.contains((n - 1) as usize) {
            let all = below.push((n - 1) as usize);
            assert(all[below.len() as int] == (n - 1) as usize);
            if all.contains(x) {
                let j = choose|j: int| 0 <= j < all.len() && #[trigger] all[j] == x;
                if j < below.len() {
                    assert(below[j] == x);
                }
            }
            if below.contains(x) {
                let j = choose|j: int| 0 <= j < below.len() && #[trigger] below[j] == x;
                assert(all[j] == x);
            }
        }
    }
}

/// Whether `v` holds `x`.
pub fn holds(v: &Vec<usize>, x: usize) -> (r: bool)
    ensures
        r == v@.contains(x),
{
    let mut i: usize = 0;
    while i < v.len()
        invariant
            i <= v.len(),
            forall|j: int| 0 <= j < i ==> v@[j] != x,
        decreases v.len() - i,
    {
        if v[i] == x {
            return true;
        }
        i = i + 1;
    }
    false
}

/// Picks uniformly, by `draw`, an index below `n` that `excluded` does not
/// hold; `None` where there is none.
pub fn pick_excluding(n: usize, excluded: &Vec<usize>, draw: usize) -> (r: Option<usize>)
    ensures
        r == pick_spec(n as nat, excluded@, draw as nat),
        r is None <==> forall|x: usize| x < n ==> excluded@.contains(x),
        r matches Some(x) ==> x < n && !excluded@.contains(x),
{
    let mut a: Vec<usize> = Vec::new();
    let mut i: usize = 0;
    while i < n
        invariant
            i <= n,
            a@ == available(i as nat, excluded@),
            a.len() <= i,
        decreases n - i,
    {
        if !holds(excluded, i) {
            a.push(i);
        }
        i = i + 1;
    }
    proof {
        if a.len() == 0 {
            assert forall|x: usize| x < n implies excluded@.contains(x) by {
                lemma_available(n as nat, excluded@, x);
            }
        } else {
            let x = a@[0];
            assert(a@.contains(x));
            lemma_available(n as nat, excluded@, x);
        }
    }
    if a.len() == 0 {
        None
    } else {
        let x = a[draw % a.len()];
        proof {
            assert(a@.contains(x));
            lemma_available(n as nat, excluded@, x);
        }
        Some(x)
    }
}

/// The size of the p-best pool: the top `top` individuals, but at least two
/// and at most the whole population.
pub open spec fn pool_size_spec(population: nat, top: nat) -> nat {
    if top < 2 {
        2
    } else if top > population {
        population
    } else {
        top
    }
}

/// The size of the p-best pool, for a population of at least two.
pub fn pbest_pool_size(population: usize, top: usize) -> (r: usize)
    requires
        population >= 2,
    ensures
        r == pool_size_spec(population as nat, top as nat),
        2 <= r <= population,
{
    if top < 2 {
        2
    } else if top > population {
        population
    } else {
        top
    }
}

/// The p-best donor: the individual that `draw` picks uniformly among the
/// first `pool` of `ranking` (indices ordered from best to worst).
pub fn pick_pbest(ranking: &Vec<usize>, pool: usize, draw: usize) -> (r: usize)
    requires
        0 < pool <= ranking.len(),
    ensures
        r == ranking@[(draw % pool) as int],
{
    ranking[draw % pool]
}

/// The r1 and r2 donors of target `target` with p-best `pbest`: r1 from the
/// `n` individuals but neither of those two, r2 from population and
/// `archived` archive entries but neither the target nor r1.
pub fn pick_donors(
    n: usize,
    archived: usize,
    target: usize,
    pbest: usize,
    draw1: usize,
    draw2: usize,
) -> (r: Option<(usize, usize)>)
    requires
        n + archived <= usize::MAX,
    ensures
        match pick_spec(n as nat, seq![target, pbest], draw1 as nat) {
            None => r is None,
            Some(r1) => match pick_spec((n + archived) as nat, seq![target, r1], draw2 as nat) {
                None => r is None,
                Some(r2) => r == Some((r1, r2)),
            },
        },
        r matches Some(p) ==> p.0 < n && p.0 != target && p.0 != pbest && p.1 < n + archived
            && p.1 != target && p.1 != p.0,
{
    let first = vec![target, pbest];
    match pick_excluding(n, &first, draw1) {
        None => None,
        Some(r1) => {
            let second = vec![target, r1];
            proof {
                assert(first@ =~= seq![target, pbest]);
                assert(first@[0] == target && first@[1] == pbest);
            }
            match pick_excluding(n + archived, &second, draw2) {
                None => None,
                Some(r2) => {
                    proof {
                        assert(second@ =~= seq![target, r1]);
                        assert(second@[0] == target && second@[1] == r1);
                    }
                    Some((r1, r2))
                },
            }
        },
    }
}

} // verus!
