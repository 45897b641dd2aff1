//! Assessment records: one value per assessment variable, and one yearly
//! projection per variable, for a transformer, a substation or a province.

use vstd::prelude::*;
use crate::vartype::{SumType, VarType};
use crate::ops::{copy_values, total1, total2, zip_with, zero_to_one, zipped};

verus! {

/// One assessment variable of a record: which variable it is, how it is
/// combined, and its value.
#[derive(Clone, Copy, Debug)]
pub struct AssVar<T> {
    pub t: VarType,
    pub s: SumType,
    pub v: T,
}

impl<T: Copy> AssVar<T> {
    /// A variable of kind `t`, combined by `s`, with the value `zero`.
    pub fn new(t: VarType, s: SumType, zero: T) -> (r: AssVar<T>)
        ensures
            r.t == t,
            r.s == s,
            r.v == zero,
    {
        AssVar { t, s, v: zero }
    }

    /// A bare value: of no particular variable, combined by summing.
    pub fn val(v: T) -> (r: AssVar<T>)
        ensures
            r.t == VarType::NoVar,
            r.s == SumType::Sum,
            r.v == v,
    {
        AssVar { t: VarType::NoVar, s: SumType::Sum, v }
    }
}

/// `r` is `a` combined with `b` the way `s` says: by `plus`, `larger` or
/// `smaller`.
pub open spec fn combined<T, P, X, N>(s: SumType, a: T, b: T, r: T, plus: P, larger: X, smaller: N) -> bool
    where P: Fn(T, T) -> T, X: Fn(T, T) -> T, N: Fn(T, T) -> T,
{
    match s {
        SumType::Sum => plus.ensures((a, b), r),
        SumType::Max => larger.ensures((a, b), r),
        SumType::Min => smaller.ensures((a, b), r),
    }
}

/// `r` is what adding the yearly projection `b` to `a` gives: a copy of
/// `b` where `a` is empty and `b` is not, the element-wise sum where both
/// have the same length, and `a` unchanged otherwise.
pub open spec fn row_merged<T, P: Fn(T, T) -> T>(a: Seq<T>, b: Seq<T>, r: Seq<T>, plus: P) -> bool {
    if a.len() == 0 && b.len() > 0 {
        r == b
    } else if a.len() == b.len() {
        r.len() == a.len() && zipped(plus, a, b, r)
    } else {
        r == a
    }
}

/// `nv` keeps the length of `v`, the kind and combination rule of each of
/// its entries, and every entry at or past `o.len()`.
pub open spec fn same_shape<T>(v: Seq<AssVar<T>>, o: Seq<AssVar<T>>, nv: Seq<AssVar<T>>) -> bool {
    &&& nv.len() == v.len()
    &&& forall|i: int| 0 <= i < v.len() ==> (#[trigger] nv[i]).t == v[i].t && nv[i].s == v[i].s
    &&& forall|i: int| o.len() <= i < v.len() ==> #[trigger] nv[i] == v[i]
}

/// Each of the first `min(v.len(), o.len())` values of `nv` is an outcome
/// of `f` on the value of `v` and the value of `o` at that position.
pub open spec fn values_applied<T, F: Fn(T, T) -> T>(v: Seq<AssVar<T>>, o: Seq<AssVar<T>>, nv: Seq<AssVar<T>>, f: F) -> bool {
    forall|i: int| 0 <= i < v.len() && i < o.len() ==> f.ensures((v[i].v, o[i].v), #[trigger] nv[i].v)
}

/// Each of the first `min(v.len(), o.len())` values of `nv` is the value of
/// `o` at that position.
pub open spec fn values_taken<T>(v: Seq<AssVar<T>>, o: Seq<AssVar<T>>, nv: Seq<AssVar<T>>) -> bool {
    forall|i: int| 0 <= i < v.len() && i < o.len() ==> #[trigger] nv[i].v == o[i].v
}

/// Each of the first `min(v.len(), o.len())` values of `nv` combines the
/// values of `v` and `o` at that position by the rule of the entry of `v`.
pub open spec fn values_combined<T, P, X, N>(v: Seq<AssVar<T>>, o: Seq<AssVar<T>>, nv: Seq<AssVar<T>>, plus: P, larger: X, smaller: N) -> bool
    where P: Fn(T, T) -> T, X: Fn(T, T) -> T, N: Fn(T, T) -> T,
{
    forall|i: int| 0 <= i < v.len() && i < o.len() ==>
        combined(v[i].s, v[i].v, o[i].v, #[trigger] nv[i].v, plus, larger, smaller)
}

/// Replaces the value of each of the first `min(v.len(), o.len())` entries
/// of `v` by `f(value, other value)`.
pub(crate) fn apply_values<T: Copy, F: Fn(T, T) -> T>(v: &mut Vec<AssVar<T>>, o: &Vec<AssVar<T>>, f: &F)
    requires
        total2(*f),
    ensures
        same_shape(old(v)@, o@, final(v)@),
        values_applied(old(v)@, o@, final(v)@, *f),
{
    let ghost v0 = v@;
    let mut i: usize = 0;
    while i < v.len() && i < o.len()
        invariant
            total2(*f),
            v.len() == v0.len(),
            i <= v.len(),
            i <= o.len(),
            forall|k: int| 0 <= k < v0.len() ==> (#[trigger] v@[k]).t == v0[k].t && v@[k].s == v0[k].s,
            forall|k: int| 0 <= k < i && k < o.len() ==> f.ensures((v0[k].v, o@[k].v), #[trigger] v@[k].v),
            forall|k: int| i <= k < v0.len() ==> #[trigger] v@[k] == v0[k],
        decreases v.len() - i,
    {
        let e = v[i];
        let nv = f(e.v, o[i].v);
        v.set(i, AssVar { t: e.t, s: e.s, v: nv });
        i = i + 1;
    }
}

/// Replaces the value of each of the first `min(v.len(), o.len())` entries
/// of `v` by the other value.
pub(crate) fn take_values<T: Copy>(v: &mut Vec<AssVar<T>>, o: &Vec<AssVar<T>>)
    ensures
        same_shape(old(v)@, o@, final(v)@),
        values_taken(old(v)@, o@, final(v)@),
{
    let ghost v0 = v@;
    let mut i: usize = 0;
    while i < v.len() && i < o.len()
        invariant
            v.len() == v0.len(),
            i <= v.len(),
            i <= o.len(),
            forall|k: int| 0 <= k < v0.len() ==> (#[trigger] v@[k]).t == v0[k].t && v@[k].s == v0[k].s,
            forall|k: int| 0 <= k < i && k < o.len() ==> #[trigger] v@[k].v == o@[k].v,
            forall|k: int| i <= k < v0.len() ==> #[trigger] v@[k] == v0[k],
        decreases v.len() - i,
    {
        let e = v[i];
        v.set(i, AssVar { t: e.t, s: e.s, v: o[i].v });
        i = i + 1;
    }
}

/// Combines each of the first `min(v.len(), o.len())` entries of `v` with
/// the other value, the way the entry's combination rule says.
pub(crate) fn combine_values<T: Copy, P, X, N>(v: &mut Vec<AssVar<T>>, o: &Vec<AssVar<T>>, plus: &P, larger: &X, smaller: &N)
    where P: Fn(T, T) -> T, X: Fn(T, T) -> T, N: Fn(T, T) -> T,
    requires
        total2(*plus),
        total2(*larger),
        total2(*smaller),
    ensures
        same_shape(old(v)@, o@, final(v)@),
        values_combined(old(v)@, o@, final(v)@, *plus, *larger, *smaller),
{
    let ghost v0 = v@;
    let mut i: usize = 0;
    while i < v.len() && i < o.len()
        invariant
            total2(*plus),
            total2(*larger),
            total2(*smaller),
            v.len() == v0.len(),
            i <= v.len(),
            i <= o.len(),
            forall|k: int| 0 <= k < v0.len() ==> (#[trigger] v@[k]).t == v0[k].t && v@[k].s == v0[k].s,
            forall|k: int| 0 <= k < i && k < o.len() ==>
                combined(v0[k].s, v0[k].v, o@[k].v, #[trigger] v@[k].v, *plus, *larger, *smaller),
            forall|k: int| i <= k < v0.len() ==> #[trigger] v@[k] == v0[k],
        decreases v.len() - i,
    {
        let e = v[i];
        let b = o[i].v;
        let nv = match e.s {
            SumType::Sum => plus(e.v, b),
            SumType::Max => larger(e.v, b),
            SumType::Min => smaller(e.v, b),
        };
        v.set(i, AssVar { t: e.t, s: e.s, v: nv });
        i = i + 1;
    }
}


/// Each row of `ny` before `oy.len()` is the row of `vy` merged with the row
/// of `oy`; the other rows stay.
pub open spec fn rows_merged<T, P: Fn(T, T) -> T>(vy: Seq<Vec<T>>, oy: Seq<Vec<T>>, ny: Seq<Vec<T>>, plus: P) -> bool {
    &&& ny.len() == vy.len()
    &&& forall|i: int| 0 <= i < vy.len() && i < oy.len() ==> row_merged(vy[i]@, oy[i]@, (#[trigger] ny[i])@, plus)
    &&& forall|i: int| oy.len() <= i < vy.len() ==> #[trigger] ny[i] == vy[i]
}

/// Merges each of the first `min(vy.len(), oy.len())` rows of `oy` into the
/// row of `vy`.
pub(crate) fn merge_rows<T: Copy, P: Fn(T, T) -> T>(vy: &mut Vec<Vec<T>>, oy: &Vec<Vec<T>>, plus: &P)
    requires
        total2(*plus),
    ensures
        rows_merged(old(vy)@, oy@, final(vy)@, *plus),
{
    let ghost y0 = vy@;
    let mut i: usize = 0;
    while i < vy.len() && i < oy.len()
        invariant
            total2(*plus),
            vy.len() == y0.len(),
            i <= vy.len(),
            i <= oy.len(),
            forall|k: int| 0 <= k < i ==> row_merged(y0[k]@, oy@[k]@, (#[trigger] vy@[k])@, *plus),
            forall|k: int| i <= k < y0.len() ==> #[trigger] vy@[k] == y0[k],
        decreases vy.len() - i,
    {
        let alen: usize = vy[i].len();
        let blen: usize = oy[i].len();
        if alen == 0 && blen > alen {
            let c = copy_values(&oy[i]);
            vy.set(i, c);
        } else if alen == blen {
            let z = zip_with(&vy[i], &oy[i], plus);
            vy.set(i, z);
        }
        i = i + 1;
    }
}

/// `r` is `a` divided by what "zero becomes one" gives for `b`.
pub open spec fn normalized<T, D, Z>(a: T, b: T, r: T, over: D, is_zero: Z, one: T) -> bool
    where D: Fn(T, T) -> T, Z: Fn(T) -> bool,
{
    exists|d: T| #[trigger] zero_to_one(is_zero, one, b, d) && over.ensures((a, d), r)
}

/// Each of the first `min(v.len(), o.len())` values of `nv` is the value of
/// `v` divided by the value of `o`, a zero divisor counting as one.
pub open spec fn values_normalized<T, D, Z>(v: Seq<AssVar<T>>, o: Seq<AssVar<T>>, nv: Seq<AssVar<T>>, over: D, is_zero: Z, one: T) -> bool
    where D: Fn(T, T) -> T, Z: Fn(T) -> bool,
{
    forall|i: int| 0 <= i < v.len() && i < o.len() ==> normalized(v[i].v, o[i].v, #[trigger] nv[i].v, over, is_zero, one)
}

/// Divides each of the first `min(v.len(), o.len())` values of `v` by the
/// value of `o`, a zero divisor counting as one.
pub(crate) fn normalize_values<T: Copy, D, Z>(v: &mut Vec<AssVar<T>>, o: &Vec<AssVar<T>>, over: &D, is_zero: &Z, one: T)
    where D: Fn(T, T) -> T, Z: Fn(T) -> bool,
    requires
        total2(*over),
        total1(*is_zero),
    ensures
        same_shape(old(v)@, o@, final(v)@),
        values_normalized(old(v)@, o@, final(v)@, *over, *is_zero, one),
{
    let ghost v0 = v@;
    let mut i: usize = 0;
    while i < v.len() && i < o.len()
        invariant
            total2(*over),
            total1(*is_zero),
            v.len() == v0.len(),
            i <= v.len(),
            i <= o.len(),
            forall|k: int| 0 <= k < v0.len() ==> (#[trigger] v@[k]).t == v0[k].t && v@[k].s == v0[k].s,
            forall|k: int| 0 <= k < i ==> normalized(v0[k].v, o@[k].v, #[trigger] v@[k].v, *over, *is_zero, one),
            forall|k: int| i <= k < v0.len() ==> #[trigger] v@[k] == v0[k],
        decreases v.len() - i,
    {
        let e = v[i];
        let b = o[i].v;
        let d = if is_zero(b) { one } else { b };
        assert(zero_to_one(*is_zero, one, b, d));
        let nv = over(e.v, d);
        v.set(i, AssVar { t: e.t, s: e.s, v: nv });
        i = i + 1;
    }
}

/// Replaces every value of `v` by its outcome under `f` with `b`.
pub(crate) fn scale_values<T: Copy, F: Fn(T, T) -> T>(v: &mut Vec<AssVar<T>>, b: T, f: &F)
    requires
        total2(*f),
    ensures
        final(v).len() == old(v).len(),
        forall|i: int| 0 <= i < old(v).len() ==> (#[trigger] final(v)@[i]).t == old(v)@[i].t
            && final(v)@[i].s == old(v)@[i].s && f.ensures((old(v)@[i].v, b), final(v)@[i].v),
{
    let ghost v0 = v@;
    let mut i: usize = 0;
    while i < v.len()
        invariant
            total2(*f),
            v.len() == v0.len(),
            i <= v.len(),
            forall|k: int| 0 <= k < i ==> (#[trigger] v@[k]).t == v0[k].t && v@[k].s == v0[k].s
                && f.ensures((v0[k].v, b), v@[k].v),
            forall|k: int| i <= k < v0.len() ==> #[trigger] v@[k] == v0[k],
        decreases v.len() - i,
    {
        let e = v[i];
        let nv = f(e.v, b);
        v.set(i, AssVar { t: e.t, s: e.s, v: nv });
        i = i + 1;
    }
}

} // verus!
