//! Element-wise arithmetic on vectors of values, with the arithmetic itself
//! supplied by the caller as closures.
//!
//! The values of an assessment record are numbers whose arithmetic the
//! library does not fix: every operation below is stated over the outcomes
//! that the supplied closures allow.

use vstd::prelude::*;

verus! {

/// `f` accepts every pair of values.
pub open spec fn total2<T, F: Fn(T, T) -> T>(f: F) -> bool {
    forall|a: T, b: T| #[trigger] f.requires((a, b))
}

/// `f` accepts every value.
pub open spec fn total1<T, F: Fn(T) -> bool>(f: F) -> bool {
    forall|a: T| #[trigger] f.requires((a,))
}

/// `d` is what "zero becomes one" gives for `x`: `one` where `is_zero`
/// says `x` is zero, `x` itself where it says it is not.
pub open spec fn zero_to_one<T, Z: Fn(T) -> bool>(is_zero: Z, one: T, x: T, d: T) -> bool {
    ||| (is_zero.ensures((x,), true) && d == one)
    ||| (is_zero.ensures((x,), false) && d == x)
}

/// `r` is a left fold of `s` with `f`, starting from `init`: a chain of
/// partial results in which each step is an outcome of `f`.
pub open spec fn is_fold<T, F: Fn(T, T) -> T>(f: F, init: T, s: Seq<T>, r: T) -> bool {
    exists|acc: Seq<T>| #[trigger] fold_chain(f, init, s, acc) && r == acc[s.len() as int]
}

/// `acc` holds the partial results of folding `s` with `f` from `init`.
pub open spec fn fold_chain<T, F: Fn(T, T) -> T>(f: F, init: T, s: Seq<T>, acc: Seq<T>) -> bool {
    &&& acc.len() == s.len() + 1
    &&& acc[0] == init
    &&& forall|k: int| 0 <= k < s.len() ==> f.ensures((acc[k], s[k]), #[trigger] acc[k + 1])
}

/// `r` pairs the first `r.len()` elements of `a` and `b` through `f`.
pub open spec fn zipped<T, F: Fn(T, T) -> T>(f: F, a: Seq<T>, b: Seq<T>, r: Seq<T>) -> bool {
    forall|k: int| 0 <= k < r.len() ==> f.ensures((a[k], b[k]), #[trigger] r[k])
}

/// A copy of `b`.
pub fn copy_values<T: Copy>(b: &Vec<T>) -> (r: Vec<T>)
    ensures
        r@ == b@,
{
    let mut r: Vec<T> = Vec::new();
    let mut k: usize = 0;
    while k < b.len()
        invariant
            k <= b.len(),
            r@ == b@.take(k as int),
        decreases b.len() - k,
    {
        r.push(b[k]);
        k = k + 1;
        assert(r@ =~= b@.take(k as int));
    }
    assert(b@.take(b.len() as int) =~= b@);
    r
}

/// The element-wise combination of `a` and `b` through `f`; `a` and `b`
/// have the same length.
pub fn zip_with<T: Copy, F: Fn(T, T) -> T>(a: &Vec<T>, b: &Vec<T>, f: &F) -> (r: Vec<T>)
    requires
        a.len() == b.len(),
        total2(*f),
    ensures
        r.len() == a.len(),
        zipped(*f, a@, b@, r@),
{
    let mut r: Vec<T> = Vec::new();
    let mut k: usize = 0;
    while k < a.len()
        invariant
            k <= a.len(),
            a.len() == b.len(),
            total2(*f),
            r.len() == k,
            zipped(*f, a@, b@, r@),
        decreases a.len() - k,
    {
        let x = f(a[k], b[k]);
        r.push(x);
        k = k + 1;
    }
    r
}

/// The left fold of `s` with `f`, starting from `init`.
pub fn fold_from<T: Copy, F: Fn(T, T) -> T>(init: T, s: &Vec<T>, f: &F) -> (r: T)
    requires
        total2(*f),
    ensures
        is_fold(*f, init, s@, r),
{
    let mut acc_v = init;
    let ghost mut acc: Seq<T> = seq![init];
    let mut k: usize = 0;
    while k < s.len()
        invariant
            k <= s.len(),
            total2(*f),
            acc.len() == k + 1,
            acc[0] == init,
            acc[k as int] == acc_v,
            forall|j: int| 0 <= j < k ==> f.ensures((acc[j], s@[j]), #[trigger] acc[j + 1]),
        decreases s.len() - k,
    {
        let nx = f(acc_v, s[k]);
        proof {
            acc = acc.push(nx);
        }
        acc_v = nx;
        k = k + 1;
    }
    assert(fold_chain(*f, init, s@, acc));
    acc_v
}


/// "Zero becomes one": `one` where `is_zero` says `x` is zero, else `x`.
pub fn z2o<T: Copy, Z: Fn(T) -> bool>(x: T, is_zero: &Z, one: T) -> (d: T)
    requires
        total1(*is_zero),
    ensures
        zero_to_one(*is_zero, one, x, d),
{
    if is_zero(x) {
        one
    } else {
        x
    }
}

/// `r` flags `x`: `one` where `pred` holds of `x`, `zero` where it does not.
pub open spec fn flagged<T, G: Fn(T) -> bool>(pred: G, x: T, one: T, zero: T, r: T) -> bool {
    ||| (pred.ensures((x,), true) && r == one)
    ||| (pred.ensures((x,), false) && r == zero)
}

/// `one` where `pred` holds of `x`, `zero` where it does not.
pub fn flag<T: Copy, G: Fn(T) -> bool>(x: T, pred: &G, one: T, zero: T) -> (r: T)
    requires
        total1(*pred),
    ensures
        flagged(*pred, x, one, zero, r),
{
    if pred(x) {
        one
    } else {
        zero
    }
}


/// `f` gives one outcome for given arguments.
pub open spec fn deterministic2<T, F: Fn(T, T) -> T>(f: F) -> bool {
    forall|a: T, b: T, r1: T, r2: T| #![trigger f.ensures((a, b), r1), f.ensures((a, b), r2)]
        f.ensures((a, b), r1) && f.ensures((a, b), r2) ==> r1 == r2
}

/// Two chains of partial results of one fold agree up to `k`.
proof fn lemma_chains_agree<T, F: Fn(T, T) -> T>(f: F, init: T, s: Seq<T>, acc1: Seq<T>, acc2: Seq<T>, k: int)
    requires
        deterministic2(f),
        fold_chain(f, init, s, acc1),
        fold_chain(f, init, s, acc2),
        0 <= k <= s.len(),
    ensures
        acc1[k] == acc2[k],
    decreases k,
{
    if k > 0 {
        let j = k - 1;
        lemma_chains_agree(f, init, s, acc1, acc2, j);
        assert(f.ensures((acc1[j], s[j]), acc1[j + 1]));
        assert(f.ensures((acc2[j], s[j]), acc2[j + 1]));
    }
}

/// Where `f` gives one outcome for given arguments, a fold has one result.
pub proof fn lemma_fold_determined<T, F: Fn(T, T) -> T>(f: F, init: T, s: Seq<T>, r1: T, r2: T)
    requires
        deterministic2(f),
        is_fold(f, init, s, r1),
        is_fold(f, init, s, r2),
    ensures
        r1 == r2,
{
    let acc1 = choose|acc: Seq<T>| #[trigger] fold_chain(f, init, s, acc) && r1 == acc[s.len() as int];
    let acc2 = choose|acc: Seq<T>| #[trigger] fold_chain(f, init, s, acc) && r2 == acc[s.len() as int];
    lemma_chains_agree(f, init, s, acc1, acc2, s.len() as int);
}

} // verus!
