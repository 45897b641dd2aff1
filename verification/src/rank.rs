//! Ranking of records by a key, largest first, ties kept in their order.

use vstd::prelude::*;

verus! {

/// Entry `j` comes before entry `i` when ranking `keys` largest first:
/// its key is larger, or equal and it stands earlier.
pub open spec fn precedes(keys: Seq<u64>, j: int, i: int) -> bool {
    keys[j] > keys[i] || (keys[j] == keys[i] && j < i)
}

/// How many of the first `m` entries come before entry `i`.
pub open spec fn rank_upto(keys: Seq<u64>, i: int, m: int) -> nat
    decreases m,
{
    if m <= 0 {
        0
    } else {
        rank_upto(keys, i, m - 1) + if precedes(keys, m - 1, i) { 1nat } else { 0nat }
    }
}

/// The rank of entry `i`: its position once `keys` are sorted largest
/// first, equal keys keeping their order.
pub open spec fn rank_of(keys: Seq<u64>, i: int) -> nat {
    rank_upto(keys, i, keys.len() as int)
}

/// The rank of each entry of `keys`.
pub fn rank_desc(keys: &Vec<u64>) -> (r: Vec<usize>)
    ensures
        r.len() == keys.len(),
        forall|i: int| 0 <= i < keys.len() ==> #[trigger] r[i] == rank_of(keys@, i),
{
    let n: usize = keys.len();
    let mut r: Vec<usize> = Vec::new();
    let mut i: usize = 0;
    while i < n
        invariant
            n == keys.len(),
            i <= n,
            r.len() == i,
            forall|k: int| 0 <= k < i ==> #[trigger] r[k] == rank_of(keys@, k),
        decreases n - i,
    {
        let mut c: usize = 0;
        let mut j: usize = 0;
        while j < n
            invariant
                n == keys.len(),
                i < n,
                j <= n,
                c == rank_upto(keys@, i as int, j as int),
                c <= j,
            decreases n - j,
        {
            if keys[j] > keys[i] || (keys[j] == keys[i] && j < i) {
                c = c + 1;
            }
            j = j + 1;
        }
        r.push(c);
        i = i + 1;
    }
    r
}

/// At most `m` entries among the first `m` come before any entry.
proof fn lemma_rank_upto_bound(keys: Seq<u64>, i: int, m: int)
    requires
        0 <= m,
    ensures
        rank_upto(keys, i, m) <= m,
        0 <= i < m ==> rank_upto(keys, i, m) < m,
    decreases m,
{
    if m > 0 {
        lemma_rank_upto_bound(keys, i, m - 1);
    }
}

/// Where every entry before `a` among the first `m` also comes before `b`,
/// `b` has at least as many before it, and one more for each entry that
/// comes before `b` but not before `a`.
proof fn lemma_rank_upto_mono(keys: Seq<u64>, a: int, b: int, m: int, w: int)
    requires
        0 <= m,
        forall|j: int| 0 <= j < m && #[trigger] precedes(keys, j, a) ==> precedes(keys, j, b),
    ensures
        rank_upto(keys, a, m) <= rank_upto(keys, b, m),
        0 <= w < m && precedes(keys, w, b) && !precedes(keys, w, a) ==> rank_upto(keys, a, m) < rank_upto(keys, b, m),
    decreases m,
{
    if m > 0 {
        lemma_rank_upto_mono(keys, a, b, m - 1, w);
    }
}

/// The ranks of `keys` are the positions `0 .. keys.len()`, each taken by
/// exactly one entry, and an entry with a larger key has a smaller rank.
pub proof fn lemma_ranks_are_positions(keys: Seq<u64>, i: int, k: int)
    requires
        0 <= i < keys.len(),
        0 <= k < keys.len(),
    ensures
        rank_of(keys, i) < keys.len(),
        i != k ==> rank_of(keys, i) != rank_of(keys, k),
        keys[i] > keys[k] ==> rank_of(keys, i) < rank_of(keys, k),
        keys[i] == keys[k] && i < k ==> rank_of(keys, i) < rank_of(keys, k),
{
    let n: int = keys.len() as int;
    lemma_rank_upto_bound(keys, i, n);
    if precedes(keys, i, k) {
        assert forall|j: int| 0 <= j < n && #[trigger] precedes(keys, j, i) implies precedes(keys, j, k) by {}
        lemma_rank_upto_mono(keys, i, k, n, i);
    } else if i != k {
        assert(precedes(keys, k, i));
        assert forall|j: int| 0 <= j < n && #[trigger] precedes(keys, j, k) implies precedes(keys, j, i) by {}
        lemma_rank_upto_mono(keys, k, i, n, k);
    }
}

} // verus!
