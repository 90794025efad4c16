//! Ranking a population by order keys of its objective values, and the
//! choice of the individuals that a replacement operator overwrites.
use vstd::prelude::*;

use crate::donors::{available, pick_excluding};

verus! {

/// `r` lists every index below `n` exactly once.
pub open spec fn is_permutation(r: Seq<usize>, n: nat) -> bool {
    r.len() == n && r.no_duplicates() && forall|i: int| 0 <= i < r.len() ==> #[trigger] r[i] < n
}

/// `r` orders the indices from the least key to the greatest.
pub open spec fn sorted_by(r: Seq<usize>, keys: Seq<u64>) -> bool {
    forall|i: int, j: int| 0 <= i < j < r.len() ==> keys[r[i] as int] <= keys[r[j] as int]
}

/// The indices of `keys`, best (least key) first; among equal keys any
/// order.
pub fn rank(keys: &Vec<u64>) -> (r: Vec<usize>)
    ensures
        is_permutation(r@, keys.len() as nat),
        sorted_by(r@, keys@),
{
    let n = keys.len();
    let mut r: Vec<usize> = Vec::new();
    let mut k: usize = 0;
    while k < n
        invariant
            k <= n,
            n == keys.len(),
            r@ == Seq::new(k as nat, |j: int| j as usize),
        decreases n - k,
    {
        r.push(k);
        k = k + 1;
        assert(r@ =~= Seq::new(k as nat, |j: int| j as usize));
    }
    let mut i: usize = 0;
    while i < n
        invariant
            i <= n,
            n == keys.len(),
            is_permutation(r@, n as nat),
            forall|a: int, b: int| 0 <= a < b < i ==> keys@[r@[a] as int] <= keys@[r@[b] as int],
            forall|a: int, b: int|
                0 <= a < i <= b < n ==> keys@[r@[a] as int] <= keys@[r@[b] as int],
        decreases n - i,
    {
        let mut m: usize = i;
        let mut j: usize = i + 1;
        while j < n
            invariant
                i < n,
                i <= m < n,
                i < j <= n,
                n == keys.len(),
                r.len() == n,
                forall|b: int| i <= b < j ==> keys@[r@[m as int] as int] <= keys@[r@[b] as int],
                forall|b: int| 0 <= b < r.len() ==> #[trigger] r@[b] < n,
            decreases n - j,
        {
            if keys[r[j]] < keys[r[m]] {
                m = j;
            }
            j = j + 1;
        }
        let ri = r[i];
        let rm = r[m];
        let ghost before = r@;
        r.set(i, rm);
        r.set(m, ri);
        proof {
            let after = r@;
            assert(after == before.update(i as int, rm).update(m as int, ri));
            assert forall|a: int, b: int| 0 <= a < b < after.len() implies after[a] != after[b] by {
                let pa = if a == i { m as int } else if a == m { i as int } else { a };
                let pb = if b == i { m as int } else if b == m { i as int } else { b };
                assert(after[a] == before[pa]);
                assert(after[b] == before[pb]);
            }
            assert(after.no_duplicates());
        }
        i = i + 1;
    }
    r
}

/// The `count` indices that `draws` pick one after another, each uniformly
/// among the indices below `n` not picked yet.
pub open spec fn random_picks(n: nat, draws: Seq<usize>, count: nat) -> Seq<usize>
    decreases count,
{
    if count == 0 {
        Seq::empty()
    } else {
        let before = random_picks(n, draws, (count - 1) as nat);
        let a = available(n, before);
        before.push(a[(draws[count - 1] as nat % a.len()) as int])
    }
}

/// Picks `count` distinct indices below `n`, the `k`-th by `draws[k]`
/// uniformly among those not picked yet.
pub fn pick_random(n: usize, count: usize, draws: &Vec<usize>) -> (r: Vec<usize>)
    requires
        count <= n,
        count <= draws.len(),
    ensures
        r@ == random_picks(n as nat, draws@, count as nat),
        r.len() == count,
        r@.no_duplicates(),
        forall|i: int| 0 <= i < r.len() ==> #[trigger] r@[i] < n,
{
    let mut r: Vec<usize> = Vec::new();
    let mut k: usize = 0;
    while k < count
        invariant
            k <= count,
            count <= n,
            count <= draws.len(),
            r@ == random_picks(n as nat, draws@, k as nat),
            r.len() == k,
            r@.no_duplicates(),
            forall|i: int| 0 <= i < r.len() ==> #[trigger] r@[i] < n,
        decreases count - k,
    {
        let ghost before = r@;
        match pick_excluding(n, &r, draws[k]) {
            Some(x) => {
                r.push(x);
                proof {
                    assert forall|a: int, b: int| 0 <= a < b < r@.len() implies r@[a] != r@[b] by {
                        if b == k {
                            assert(before.contains(r@[a]) ==> r@[a] != x);
                            assert(before[a] == r@[a]);
                        }
                    }
                }
            },
            None => {
                proof {
                    lemma_no_room(before, n as nat);
                }
            },
        }
        k = k + 1;
    }
    r
}

/// Fewer than `n` distinct indices below `n` leave one out.
proof fn lemma_no_room(r: Seq<usize>, n: nat)
    requires
        r.no_duplicates(),
        r.len() < n,
        n <= usize::MAX,
        forall|i: int| 0 <= i < r.len() ==> #[trigger] r[i] < n,
    ensures
        exists|x: usize| x < n && !r.contains(x),
{
    let s = r.to_set();
    r.unique_seq_to_set();
    let full = Set::new(|x: usize| x < n);
    assert(s.subset_of(full));
    lemma_range_set_len(n);
    if forall|x: usize| x < n ==> r.contains(x) {
        assert(full.subset_of(s));
        assert(s =~= full);
    }
}

/// A permutation of the indices below `n` holds each of them.
proof fn lemma_permutation_covers(r: Seq<usize>, n: nat, u: usize)
    requires
        is_permutation(r, n),
        u < n,
        n <= usize::MAX,
    ensures
        r.contains(u),
{
    let s = r.to_set();
    r.unique_seq_to_set();
    let full = Set::new(|x: usize| x < n);
    lemma_range_set_len(n);
    assert(s.subset_of(full));
    vstd::set_lib::lemma_subset_equality(s, full);
    assert(full.contains(u));
}

/// The `n` best individuals (least keys): no individual left out is better
/// than one chosen.
pub fn best_n(keys: &Vec<u64>, n: usize) -> (r: Vec<usize>)
    requires
        n <= keys.len(),
    ensures
        r.len() == n,
        r@.no_duplicates(),
        forall|i: int| 0 <= i < r.len() ==> #[trigger] r@[i] < keys.len(),
        forall|i: int, u: usize|
            #![trigger r@[i], keys@[u as int]]
            0 <= i < r.len() && u < keys.len() && !r@.contains(u) ==> keys@[r@[i] as int]
                <= keys@[u as int],
{
    let order = rank(keys);
    let mut r: Vec<usize> = Vec::new();
    let mut k: usize = 0;
    while k < n
        invariant
            k <= n,
            n <= keys.len(),
            is_permutation(order@, keys.len() as nat),
            r@ == order@.take(k as int),
        decreases n - k,
    {
        r.push(order[k]);
        k = k + 1;
        assert(r@ =~= order@.take(k as int));
    }
    proof {
        assert forall|a: int, b: int| 0 <= a < b < r@.len() implies r@[a] != r@[b] by {
            assert(r@[a] == order@[a] && r@[b] == order@[b]);
        }
        assert forall|i: int, u: usize|
            #![trigger r@[i], keys@[u as int]]
            0 <= i < r.len() && u < keys.len() && !r@.contains(u) implies keys@[r@[i] as int]
                <= keys@[u as int] by {
            lemma_permutation_covers(order@, keys.len() as nat, u);
            let p = choose|p: int| 0 <= p < order@.len() && order@[p] == u;
            if p < n {
                assert(r@[p] == u);
            }
            assert(r@[i] == order@[i]);
        }
    }
    r
}

/// The `n` worst individuals (greatest keys), worst first: no individual
/// left out is worse than one chosen.
pub fn worst_n(keys: &Vec<u64>, n: usize) -> (r: Vec<usize>)
    requires
        n <= keys.len(),
    ensures
        r.len() == n,
        r@.no_duplicates(),
        forall|i: int| 0 <= i < r.len() ==> #[trigger] r@[i] < keys.len(),
        forall|i: int, u: usize|
            #![trigger r@[i], keys@[u as int]]
            0 <= i < r.len() && u < keys.len() && !r@.contains(u) ==> keys@[r@[i] as int]
                >= keys@[u as int],
{
    let order = rank(keys);
    let len = keys.len();
    let mut r: Vec<usize> = Vec::new();
    let mut k: usize = 0;
    while k < n
        invariant
            k <= n,
            n <= keys.len(),
            len == keys.len(),
            is_permutation(order@, keys.len() as nat),
            r@ == Seq::new(k as nat, |j: int| order@[len - 1 - j]),
        decreases n - k,
    {
        r.push(order[len - 1 - k]);
        k = k + 1;
        assert(r@ =~= Seq::new(k as nat, |j: int| order@[len - 1 - j]));
    }
    proof {
        assert forall|a: int, b: int| 0 <= a < b < r@.len() implies r@[a] != r@[b] by {
            assert(r@[a] == order@[len - 1 - a] && r@[b] == order@[len - 1 - b]);
        }
        assert forall|i: int, u: usize|
            #![trigger r@[i], keys@[u as int]]
            0 <= i < r.len() && u < keys.len() && !r@.contains(u) implies keys@[r@[i] as int]
                >= keys@[u as int] by {
            lemma_permutation_covers(order@, keys.len() as nat, u);
            let p = choose|p: int| 0 <= p < order@.len() && order@[p] == u;
            if p >= len - n {
                assert(r@[len - 1 - p] == u);
            }
            assert(r@[i] == order@[len - 1 - i]);
        }
    }
    r
}

proof fn lemma_range_set_len(n: nat)
    requires
        n <= usize::MAX,
    ensures
        Set::new(|x: usize| x < n).finite(),
        Set::new(|x: usize| x < n).len() == n,
    decreases n,
{
    let full = Set::new(|x: usize| x < n);
    if n == 0 {
        assert(full =~= Set::empty());
    } else {
        lemma_range_set_len((n - 1) as nat);
        let smaller = Set::new(|x: usize| x < (n - 1) as nat);
        assert(full =~= smaller.insert((n - 1) as usize));
    }
}

} // verus!
