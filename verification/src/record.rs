//! The assessment record of a transformer, a substation or a province, and
//! the ways in which records are combined.

use vstd::prelude::*;
use crate::vartype::{default_sum_type, var_at, var_index, VarType, VAR_COUNT};
use crate::ops::{deterministic2, fold_from, is_fold, total1, total2};
use crate::assvar::{
    apply_values, combine_values, combined, merge_rows, normalize_values, row_merged, rows_merged, same_shape, scale_values,
    take_values, values_applied, values_combined, values_normalized, values_taken, AssVar,
};

verus! {

/// The assessment record of an area, a province, a substation or a
/// transformer: one value per assessment variable in `v`, one yearly
/// projection per variable in `vy`.
#[derive(Clone, Debug)]
pub struct PeaAssVar<T, A> {
    pub arid: String,
    pub pvid: String,
    pub sbid: String,
    pub aoj: String,
    pub n1d: u64,
    /// How many records `max` and `min` have taken in.
    pub set: u32,
    /// The total that `sum` computes.
    pub res: T,
    pub v: Vec<AssVar<T>>,
    pub vy: Vec<Vec<T>>,
    /// The offices that serve the area of the record.
    pub aojv: Vec<A>,
}

/// `b` carries the identifiers of `a`.
pub open spec fn same_labels<T, A>(a: PeaAssVar<T, A>, b: PeaAssVar<T, A>) -> bool {
    &&& b.arid == a.arid
    &&& b.pvid == a.pvid
    &&& b.sbid == a.sbid
    &&& b.aoj == a.aoj
    &&& b.n1d == a.n1d
    &&& b.aojv == a.aojv
}

/// `r` is `a` with `o` added to it: each value combined with the value of
/// `o` at its position by its own rule (`plus`, `larger` or `smaller`), each
/// projection merged with that of `o`; identifiers, counter and total stay.
pub open spec fn record_added<T, A, P, X, N>(a: PeaAssVar<T, A>, o: PeaAssVar<T, A>, r: PeaAssVar<T, A>, plus: P, larger: X, smaller: N) -> bool
    where P: Fn(T, T) -> T, X: Fn(T, T) -> T, N: Fn(T, T) -> T,
{
    &&& same_labels(a, r)
    &&& r.set == a.set
    &&& r.res == a.res
    &&& same_shape(a.v@, o.v@, r.v@)
    &&& values_combined(a.v@, o.v@, r.v@, plus, larger, smaller)
    &&& rows_merged(a.vy@, o.vy@, r.vy@, plus)
}

/// `r` is `a` after taking `o` into a running maximum: the counter goes up
/// by one; the first record taken in gives its values, each later one
/// raises each value to the larger of the two.
pub open spec fn max_taken<T, A, X: Fn(T, T) -> T>(a: PeaAssVar<T, A>, o: PeaAssVar<T, A>, r: PeaAssVar<T, A>, larger: X) -> bool {
    &&& same_labels(a, r)
    &&& r.res == a.res
    &&& r.vy == a.vy
    &&& r.set == a.set + 1
    &&& same_shape(a.v@, o.v@, r.v@)
    &&& a.set == 0 ==> values_taken(a.v@, o.v@, r.v@)
    &&& a.set != 0 ==> values_applied(a.v@, o.v@, r.v@, larger)
}

/// The values of the entries of `v`.
pub open spec fn values_of<T>(v: Seq<AssVar<T>>) -> Seq<T> {
    Seq::new(v.len(), |i: int| v[i].v)
}

impl<T: Copy, A> PeaAssVar<T, A> {
    /// A fresh record: one entry per assessment variable, in order, each
    /// valued `zero` and combined by the variable's own rule; every
    /// projection empty, every identifier empty.
    pub fn from(n1d: u64, zero: T) -> (r: PeaAssVar<T, A>)
        ensures
            r.n1d == n1d,
            r.set == 0,
            r.res == zero,
            r.arid@.len() == 0,
            r.pvid@.len() == 0,
            r.sbid@.len() == 0,
            r.aoj@.len() == 0,
            r.aojv.len() == 0,
            r.v.len() == VAR_COUNT,
            r.vy.len() == VAR_COUNT,
            forall|i: int| 0 <= i < VAR_COUNT ==> (#[trigger] r.v[i]).t == var_at(i)
                && r.v[i].s == default_sum_type(var_at(i)) && r.v[i].v == zero,
            forall|i: int| 0 <= i < VAR_COUNT ==> (#[trigger] r.vy[i]).len() == 0,
    {
        let mut v: Vec<AssVar<T>> = Vec::new();
        let mut vy: Vec<Vec<T>> = Vec::new();
        let mut i: usize = 0;
        while i < VAR_COUNT
            invariant
                i <= VAR_COUNT,
                v.len() == i,
                vy.len() == i,
                forall|k: int| 0 <= k < i ==> (#[trigger] v@[k]).t == var_at(k)
                    && v@[k].s == default_sum_type(var_at(k)) && v@[k].v == zero,
                forall|k: int| 0 <= k < i ==> (#[trigger] vy@[k]).len() == 0,
            decreases VAR_COUNT - i,
        {
            let vt = VarType::from_index(i);
            let st = vt.sum_type();
            v.push(AssVar::new(vt, st, zero));
            vy.push(Vec::new());
            i = i + 1;
        }
        PeaAssVar {
            arid: String::new(),
            pvid: String::new(),
            sbid: String::new(),
            aoj: String::new(),
            n1d,
            set: 0,
            res: zero,
            v,
            vy,
            aojv: Vec::new(),
        }
    }

    /// Divides every value by `o`, unless `is_zero` says `o` is zero, in
    /// which case nothing changes.
    pub fn div<D, Z>(&mut self, o: T, is_zero: &Z, over: &D)
        where D: Fn(T, T) -> T, Z: Fn(T) -> bool,
        requires
            total2(*over),
            total1(*is_zero),
        ensures
            same_labels(*old(self), *final(self)),
            final(self).set == old(self).set,
            final(self).res == old(self).res,
            final(self).vy == old(self).vy,
            final(self).v.len() == old(self).v.len(),
            (is_zero.ensures((o,), true) && final(self).v@ == old(self).v@)
            || (is_zero.ensures((o,), false) && forall|i: int| 0 <= i < old(self).v.len() ==>
                (#[trigger] final(self).v[i]).t == old(self).v[i].t && final(self).v[i].s == old(self).v[i].s
                && over.ensures((old(self).v[i].v, o), final(self).v[i].v)),
    {
        if is_zero(o) {
            return;
        }
        scale_values(&mut self.v, o, over);
    }

    /// Divides each value by the value of `o` at its position, a zero
    /// divisor counting as `one`.
    pub fn nor<D, Z>(&mut self, o: &PeaAssVar<T, A>, over: &D, is_zero: &Z, one: T)
        where D: Fn(T, T) -> T, Z: Fn(T) -> bool,
        requires
            total2(*over),
            total1(*is_zero),
        ensures
            same_labels(*old(self), *final(self)),
            final(self).set == old(self).set,
            final(self).res == old(self).res,
            final(self).vy == old(self).vy,
            same_shape(old(self).v@, o.v@, final(self).v@),
            values_normalized(old(self).v@, o.v@, final(self).v@, *over, *is_zero, one),
    {
        normalize_values(&mut self.v, &o.v, over, is_zero, one);
    }

    /// Takes the value of variable `t` from `o`.
    pub fn copy(&mut self, o: &PeaAssVar<T, A>, t: VarType)
        requires
            var_index(t) < old(self).v.len(),
            var_index(t) < o.v.len(),
        ensures
            same_labels(*old(self), *final(self)),
            final(self).set == old(self).set,
            final(self).res == old(self).res,
            final(self).vy == old(self).vy,
            final(self).v@ == old(self).v@.update(var_index(t) as int, AssVar {
                v: o.v[var_index(t) as int].v,
                ..old(self).v[var_index(t) as int]
            }),
    {
        let i: usize = t.tousz();
        let e = self.v[i];
        self.v.set(i, AssVar { t: e.t, s: e.s, v: o.v[i].v });
    }

    /// Adds `o` to this record: each value is combined with the value of
    /// `o` at its position by its own rule, and each projection is merged
    /// with that of `o`.
    pub fn add<P, X, N>(&mut self, o: &PeaAssVar<T, A>, plus: &P, larger: &X, smaller: &N)
        where P: Fn(T, T) -> T, X: Fn(T, T) -> T, N: Fn(T, T) -> T,
        requires
            total2(*plus),
            total2(*larger),
            total2(*smaller),
        ensures
            record_added(*old(self), *o, *final(self), *plus, *larger, *smaller),
    {
        combine_values(&mut self.v, &o.v, plus, larger, smaller);
        merge_rows(&mut self.vy, &o.vy, plus);
    }

    /// Adds `o` to this record as `add` does, and returns an empty string.
    pub fn add1<P, X, N>(&mut self, o: &PeaAssVar<T, A>, plus: &P, larger: &X, smaller: &N) -> (r: String)
        where P: Fn(T, T) -> T, X: Fn(T, T) -> T, N: Fn(T, T) -> T,
        requires
            total2(*plus),
            total2(*larger),
            total2(*smaller),
        ensures
            record_added(*old(self), *o, *final(self), *plus, *larger, *smaller),
            r@.len() == 0,
    {
        combine_values(&mut self.v, &o.v, plus, larger, smaller);
        merge_rows(&mut self.vy, &o.vy, plus);
        String::new()
    }

    /// Takes `o` into a running maximum: the first record taken in gives its
    /// values, each later one raises each value to the larger of the two.
    pub fn max<X: Fn(T, T) -> T>(&mut self, o: &PeaAssVar<T, A>, larger: &X)
        requires
            total2(*larger),
            old(self).set < u32::MAX,
        ensures
            max_taken(*old(self), *o, *final(self), *larger),
    {
        if self.set == 0 {
            self.set = self.set + 1;
            take_values(&mut self.v, &o.v);
            return;
        }
        self.set = self.set + 1;
        apply_values(&mut self.v, &o.v, larger);
    }

    /// The running "minimum" of records, which keeps the larger value: the
    /// first record taken in gives its values and counts twice, and every
    /// value is then raised to the larger of it and the value of `o`.
    pub fn min<X: Fn(T, T) -> T>(&mut self, o: &PeaAssVar<T, A>, larger: &X)
        requires
            total2(*larger),
            old(self).set < u32::MAX,
        ensures
            same_labels(*old(self), *final(self)),
            final(self).res == old(self).res,
            final(self).vy == old(self).vy,
            old(self).set == 0 ==> final(self).set == 2,
            old(self).set != 0 ==> final(self).set == old(self).set + 1,
            same_shape(old(self).v@, o.v@, final(self).v@),
            old(self).set != 0 ==> values_applied(old(self).v@, o.v@, final(self).v@, *larger),
            old(self).set == 0 ==> forall|i: int| 0 <= i < old(self).v.len() && i < o.v.len() ==>
                larger.ensures((o.v[i].v, o.v[i].v), #[trigger] final(self).v[i].v),
    {
        let ghost v0 = self.v@;
        if self.set == 0 {
            self.set = self.set + 1;
            take_values(&mut self.v, &o.v);
        }
        let ghost v1 = self.v@;
        self.set = self.set + 1;
        apply_values(&mut self.v, &o.v, larger);
        assert forall|i: int| o.v.len() <= i < v0.len() implies #[trigger] self.v@[i] == v0[i] by {
            assert(self.v@[i] == v1[i]);
        }
    }

    /// Multiplies each value by the value of `o` at its position.
    pub fn weigh<M: Fn(T, T) -> T>(&mut self, o: &PeaAssVar<T, A>, times: &M)
        requires
            total2(*times),
        ensures
            same_labels(*old(self), *final(self)),
            final(self).set == old(self).set,
            final(self).res == old(self).res,
            final(self).vy == old(self).vy,
            same_shape(old(self).v@, o.v@, final(self).v@),
            values_applied(old(self).v@, o.v@, final(self).v@, *times),
    {
        apply_values(&mut self.v, &o.v, times);
    }

    /// Sets the total to the sum of all values, added in order from `zero`.
    pub fn sum<P: Fn(T, T) -> T>(&mut self, plus: &P, zero: T)
        requires
            total2(*plus),
        ensures
            same_labels(*old(self), *final(self)),
            final(self).set == old(self).set,
            final(self).v == old(self).v,
            final(self).vy == old(self).vy,
            is_fold(*plus, zero, values_of(old(self).v@), final(self).res),
    {
        let mut vals: Vec<T> = Vec::new();
        let mut i: usize = 0;
        while i < self.v.len()
            invariant
                i <= self.v.len(),
                vals@ == values_of(self.v@).take(i as int),
            decreases self.v.len() - i,
        {
            vals.push(self.v[i].v);
            i = i + 1;
            assert(vals@ =~= values_of(self.v@).take(i as int));
        }
        assert(vals@ =~= values_of(self.v@));
        self.res = fold_from(zero, &vals, plus);
    }
}


/// In a fresh record, the entry at the position that `tousz` gives for a
/// variable is that variable's entry.
pub proof fn lemma_fresh_record_position<T, A>(r: PeaAssVar<T, A>, t: VarType)
    requires
        r.v.len() == VAR_COUNT,
        forall|i: int| 0 <= i < VAR_COUNT ==> (#[trigger] r.v[i]).t == var_at(i),
    ensures
        var_index(t) < r.v.len(),
        r.v[var_index(t) as int].t == t,
{
    crate::vartype::lemma_var_index_inverse(t);
    assert(r.v[var_index(t) as int].t == var_at(var_index(t) as int));
}


/// The value at position `i` of each of `recs`.
pub open spec fn column<T, A>(recs: Seq<PeaAssVar<T, A>>, i: int) -> Seq<T> {
    Seq::new(recs.len(), |k: int| recs[k].v[i].v)
}

/// Taking records one after the other into a fresh running maximum leaves
/// at each position the left fold, by `larger`, of the records' values at
/// that position: the first record's value raised by each later one.
pub proof fn lemma_running_max<T, A, X: Fn(T, T) -> T>(states: Seq<PeaAssVar<T, A>>, recs: Seq<PeaAssVar<T, A>>, larger: X, i: int)
    requires
        recs.len() >= 1,
        states.len() == recs.len() + 1,
        states[0].set == 0,
        forall|k: int| 0 <= k < recs.len() ==> max_taken(#[trigger] states[k], recs[k], states[k + 1], larger),
        forall|k: int| 0 <= k < recs.len() ==> (#[trigger] recs[k]).v.len() == states[0].v.len(),
        0 <= i < states[0].v.len(),
    ensures
        is_fold(larger, recs[0].v[i].v, column(recs, i).drop_first(), states[recs.len() as int].v[i].v),
    decreases recs.len(),
{
    let n: int = recs.len() as int;
    if n == 1 {
        let acc = seq![recs[0].v[i].v];
        assert(states[1].v[i].v == recs[0].v[i].v);
        assert(column(recs, i).drop_first().len() == 0);
        assert(crate::ops::fold_chain(larger, recs[0].v[i].v, column(recs, i).drop_first(), acc));
    } else {
        let s0 = states.drop_last();
        let r0 = recs.drop_last();
        assert forall|k: int| 0 <= k < r0.len() implies max_taken(#[trigger] s0[k], r0[k], s0[k + 1], larger) by {
            assert(s0[k] == states[k] && r0[k] == recs[k] && s0[k + 1] == states[k + 1]);
        }
        assert forall|k: int| 0 <= k < r0.len() implies (#[trigger] r0[k]).v.len() == s0[0].v.len() by {
            assert(r0[k] == recs[k]);
        }
        lemma_running_max(s0, r0, larger, i);
        let prev = column(r0, i).drop_first();
        let acc0 = choose|acc: Seq<T>| #[trigger] crate::ops::fold_chain(larger, recs[0].v[i].v, prev, acc)
            && states[n - 1].v[i].v == acc[prev.len() as int];
        lemma_set_counts(states, recs, larger, n - 1);
        let last = states[n].v[i].v;
        assert(states[n - 1].v.len() == states[0].v.len()) by {
            lemma_lengths_kept(states, recs, larger, n - 1);
        }
        assert(larger.ensures((states[n - 1].v[i].v, recs[n - 1].v[i].v), last));
        let acc = acc0.push(last);
        let cur = column(recs, i).drop_first();
        assert(cur =~= prev.push(recs[n - 1].v[i].v));
        assert forall|k: int| 0 <= k < cur.len() implies larger.ensures((acc[k], cur[k]), #[trigger] acc[k + 1]) by {
            if k < prev.len() {
                assert(acc[k] == acc0[k] && acc[k + 1] == acc0[k + 1] && cur[k] == prev[k]);
            }
        }
        assert(crate::ops::fold_chain(larger, recs[0].v[i].v, cur, acc));
    }
}

/// The counter of a fresh running maximum counts the records taken in.
proof fn lemma_set_counts<T, A, X: Fn(T, T) -> T>(states: Seq<PeaAssVar<T, A>>, recs: Seq<PeaAssVar<T, A>>, larger: X, m: int)
    requires
        states.len() == recs.len() + 1,
        states[0].set == 0,
        forall|k: int| 0 <= k < recs.len() ==> max_taken(#[trigger] states[k], recs[k], states[k + 1], larger),
        0 <= m <= recs.len(),
    ensures
        states[m].set == m,
    decreases m,
{
    if m > 0 {
        lemma_set_counts(states, recs, larger, m - 1);
        assert(max_taken(states[m - 1], recs[m - 1], states[m], larger));
    }
}

/// A running maximum keeps the number of its entries.
proof fn lemma_lengths_kept<T, A, X: Fn(T, T) -> T>(states: Seq<PeaAssVar<T, A>>, recs: Seq<PeaAssVar<T, A>>, larger: X, m: int)
    requires
        states.len() == recs.len() + 1,
        forall|k: int| 0 <= k < recs.len() ==> max_taken(#[trigger] states[k], recs[k], states[k + 1], larger),
        0 <= m <= recs.len(),
    ensures
        states[m].v.len() == states[0].v.len(),
    decreases m,
{
    if m > 0 {
        lemma_lengths_kept(states, recs, larger, m - 1);
        assert(max_taken(states[m - 1], recs[m - 1], states[m], larger));
    }
}


/// `a` and `b` hold the same labels, counters, values and projections.
pub open spec fn same_record<T, A>(a: PeaAssVar<T, A>, b: PeaAssVar<T, A>) -> bool {
    &&& same_labels(a, b)
    &&& a.set == b.set
    &&& a.res == b.res
    &&& a.v@ == b.v@
    &&& a.vy.len() == b.vy.len()
    &&& forall|i: int| 0 <= i < a.vy.len() ==> (#[trigger] a.vy[i])@ == b.vy[i]@
}

/// Adding one record to two equal records, by `add` or by `add1`, leaves
/// equal records, where the arithmetic gives one outcome for given
/// arguments.
pub proof fn lemma_added_determined<T, A, P, X, N>(a: PeaAssVar<T, A>, b: PeaAssVar<T, A>, o: PeaAssVar<T, A>,
    r1: PeaAssVar<T, A>, r2: PeaAssVar<T, A>, plus: P, larger: X, smaller: N)
    where P: Fn(T, T) -> T, X: Fn(T, T) -> T, N: Fn(T, T) -> T,
    requires
        deterministic2(plus),
        deterministic2(larger),
        deterministic2(smaller),
        same_record(a, b),
        record_added(a, o, r1, plus, larger, smaller),
        record_added(b, o, r2, plus, larger, smaller),
    ensures
        same_record(r1, r2),
{
    assert forall|i: int| 0 <= i < r1.v.len() implies #[trigger] r1.v@[i] == r2.v@[i] by {
        assert(a.v@[i] == b.v@[i]);
        if i < o.v.len() {
            assert(combined(a.v@[i].s, a.v@[i].v, o.v@[i].v, r1.v@[i].v, plus, larger, smaller));
            assert(combined(b.v@[i].s, b.v@[i].v, o.v@[i].v, r2.v@[i].v, plus, larger, smaller));
        }
    }
    assert(r1.v@ =~= r2.v@);
    assert forall|i: int| 0 <= i < r1.vy.len() implies (#[trigger] r1.vy[i])@ == r2.vy[i]@ by {
        assert(a.vy[i]@ == b.vy[i]@);
        if i < o.vy.len() {
            assert(row_merged(a.vy@[i]@, o.vy@[i]@, r1.vy@[i]@, plus));
            assert(row_merged(b.vy@[i]@, o.vy@[i]@, r2.vy@[i]@, plus));
            if !(a.vy[i]@.len() == 0 && o.vy[i]@.len() > 0) && a.vy[i]@.len() == o.vy[i]@.len() {
                assert forall|k: int| 0 <= k < r1.vy[i]@.len() implies r1.vy[i]@[k] == r2.vy[i]@[k] by {
                    assert(plus.ensures((a.vy[i]@[k], o.vy[i]@[k]), r1.vy[i]@[k]));
                    assert(plus.ensures((b.vy[i]@[k], o.vy[i]@[k]), r2.vy[i]@[k]));
                }
                assert(r1.vy[i]@ =~= r2.vy[i]@);
            }
        } else {
            assert(r1.vy@[i] == a.vy@[i]);
            assert(r2.vy@[i] == b.vy@[i]);
        }
    }
}


/// Adding `o` to a record whose entry for `t` has the rule that `from`
/// gives it: the new value is `larger` of the two values for the peak
/// powers of substations and feeders, the feeders' peak differences and the
/// unbalance rate, and `plus` of the two for every other variable.
pub proof fn lemma_added_by_variable_rule<T, A, P, X, N>(a: PeaAssVar<T, A>, o: PeaAssVar<T, A>, r: PeaAssVar<T, A>,
    plus: P, larger: X, smaller: N, t: VarType)
    where P: Fn(T, T) -> T, X: Fn(T, T) -> T, N: Fn(T, T) -> T,
    requires
        record_added(a, o, r, plus, larger, smaller),
        var_index(t) < a.v.len(),
        var_index(t) < o.v.len(),
        a.v@[var_index(t) as int].s == default_sum_type(t),
    ensures
        ({
            let i = var_index(t) as int;
            if t == VarType::MaxPosPowSub || t == VarType::MaxNegPowSub || t == VarType::MaxPosPowFeeder
                || t == VarType::MaxNegPowFeeder || t == VarType::MaxPosDiffFeeder
                || t == VarType::MaxNegDiffFeeder || t == VarType::UnbalPowRate {
                larger.ensures((a.v@[i].v, o.v@[i].v), r.v@[i].v)
            } else {
                plus.ensures((a.v@[i].v, o.v@[i].v), r.v@[i].v)
            }
        }),
{
    crate::vartype::lemma_combination_rules(t);
    let i = var_index(t) as int;
    assert(combined(a.v@[i].s, a.v@[i].v, o.v@[i].v, r.v@[i].v, plus, larger, smaller));
}

/// Adding `o` merges each yearly projection row of `o` into the record's
/// row at the same position: an empty row takes `o`'s row, rows of one
/// length are added year by year by `plus`, a non-empty row of another
/// length stays; rows past those of `o` stay.
pub proof fn lemma_rows_added<T, A, P, X, N>(a: PeaAssVar<T, A>, o: PeaAssVar<T, A>, r: PeaAssVar<T, A>,
    plus: P, larger: X, smaller: N, i: int)
    where P: Fn(T, T) -> T, X: Fn(T, T) -> T, N: Fn(T, T) -> T,
    requires
        record_added(a, o, r, plus, larger, smaller),
        0 <= i < a.vy.len(),
    ensures
        r.vy.len() == a.vy.len(),
        i < o.vy.len() && a.vy[i].len() == 0 && o.vy[i].len() > 0 ==> r.vy[i]@ == o.vy[i]@,
        i < o.vy.len() && a.vy[i].len() == o.vy[i].len() ==> r.vy[i].len() == a.vy[i].len()
            && forall|k: int| 0 <= k < a.vy[i].len() ==> plus.ensures((a.vy[i]@[k], o.vy[i]@[k]), #[trigger] r.vy[i]@[k]),
        i < o.vy.len() && a.vy[i].len() > 0 && a.vy[i].len() != o.vy[i].len() ==> r.vy[i]@ == a.vy[i]@,
        i >= o.vy.len() ==> r.vy[i]@ == a.vy[i]@,
{
    if i < o.vy.len() {
        assert(row_merged(a.vy@[i]@, o.vy@[i]@, r.vy@[i]@, plus));
    } else {
        assert(r.vy@[i] == a.vy@[i]);
    }
}

} // verus!
