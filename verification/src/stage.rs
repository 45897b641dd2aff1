//! Summing transformer records up to substations, and substations up to
//! provinces.

use vstd::prelude::*;
use crate::vartype::{default_sum_type, var_at, var_index, VarType, VAR_COUNT};
use crate::ops::{is_fold, total1, total2};
use crate::assvar::{combined, AssVar};
use crate::record::{column, lemma_running_max, max_taken, record_added, same_labels, PeaAssVar};
use crate::rank::{rank_desc, rank_of};
use crate::assvar::{same_shape, values_normalized};
use crate::recalc::{lemma_recalc_figures, lemma_sub_figures_from_first, recalculated, sub_figures_copied, val};
use crate::benefits::projections_appended;
use crate::aoj::{aoj_list, comma_join, distinct_firsts};

verus! {

/// `r` holds what a fresh record holds, identifiers aside: one entry per
/// variable in order, valued `zero`, with the variable's own rule; every
/// projection empty; counter zero and total `zero`.
pub open spec fn is_fresh<T, A>(r: PeaAssVar<T, A>, zero: T) -> bool {
    &&& r.set == 0
    &&& r.res == zero
    &&& r.n1d == 0
    &&& r.v.len() == VAR_COUNT
    &&& r.vy.len() == VAR_COUNT
    &&& forall|i: int| 0 <= i < VAR_COUNT ==> (#[trigger] r.v[i]).t == var_at(i)
        && r.v[i].s == default_sum_type(var_at(i)) && r.v[i].v == zero
    &&& forall|i: int| 0 <= i < VAR_COUNT ==> (#[trigger] r.vy[i]).len() == 0
}

/// `states` runs from its first record through adding each of `trs` in
/// order.
pub open spec fn added_chain<T, A, P, X, N>(states: Seq<PeaAssVar<T, A>>, trs: Seq<PeaAssVar<T, A>>, plus: P, larger: X, smaller: N) -> bool
    where P: Fn(T, T) -> T, X: Fn(T, T) -> T, N: Fn(T, T) -> T,
{
    &&& states.len() == trs.len() + 1
    &&& forall|j: int| 0 <= j < trs.len() ==> record_added(#[trigger] states[j], trs[j], states[j + 1], plus, larger, smaller)
}

/// The office names of `trs`.
pub open spec fn aoj_texts<T, A>(trs: Seq<PeaAssVar<T, A>>) -> Seq<Seq<char>> {
    Seq::new(trs.len(), |j: int| trs[j].aoj@)
}

/// The position of the note flag.
pub open spec fn note_index() -> int {
    var_index(VarType::TakeNote) as int
}

/// `r` is the record of a substation whose transformer records are `trs`:
/// a fresh record with the area and province given and the substation of
/// the first transformer record, to which each of `trs` is added in order;
/// its office list is that of `trs`, its offices clones of `aojv`; its
/// substation-wide figures then come from the first transformer record, its
/// derived figures are recomputed, its note flag is `one` where it is noted
/// and `zero` where not, and the benefit projections `projs`, where there
/// are any, are appended to its benefit rows.
pub open spec fn is_substation_record<T, A: Clone, P, X, N, D, Z, G, H>(
    arid: String, pvid: String, trs: Seq<PeaAssVar<T, A>>, noted: bool, projs: Option<Seq<Vec<T>>>,
    aojv: Seq<A>, zero: T, one: T, plus: P, larger: X, smaller: N, over: D, is_zero: Z,
    lv_saturated: G, unbalanced: H, r: PeaAssVar<T, A>,
) -> bool
    where P: Fn(T, T) -> T, X: Fn(T, T) -> T, N: Fn(T, T) -> T, D: Fn(T, T) -> T,
        Z: Fn(T) -> bool, G: Fn(T) -> bool, H: Fn(T) -> bool,
{
    &&& r.arid == arid
    &&& r.pvid == pvid
    &&& r.sbid == trs[0].sbid
    &&& r.aoj@ == comma_join(distinct_firsts(aoj_texts(trs)))
    &&& r.aojv.len() == aojv.len()
    &&& forall|i: int| 0 <= i < aojv.len() ==> cloned::<A>(aojv[i], #[trigger] r.aojv[i])
    &&& r.n1d == 0
    &&& r.set == 0
    &&& r.res == zero
    &&& r.v.len() == VAR_COUNT
    &&& r.vy.len() == VAR_COUNT
    &&& exists|chain: Seq<PeaAssVar<T, A>>, c: Seq<AssVar<T>>, d: Seq<AssVar<T>>| {
        &&& #[trigger] added_chain(chain, trs, plus, larger, smaller)
        &&& is_fresh(chain[0], zero)
        &&& #[trigger] sub_figures_copied(chain[trs.len() as int].v@, trs[0].v@, c)
        &&& #[trigger] recalculated(c, d, over, is_zero, one, zero, lv_saturated, unbalanced)
        &&& r.v@ == d.update(note_index(), AssVar { v: if noted { one } else { zero }, ..d[note_index()] })
        &&& match projs {
            Some(p) => projections_appended(chain[trs.len() as int].vy@, p, r.vy@),
            None => r.vy@ == chain[trs.len() as int].vy@,
        }
    }
}

/// The record of a substation, summed up from its transformer records `trs`.
pub fn substation_record<T: Copy, A: Clone, P, X, N, D, Z, G, H>(
    arid: String, pvid: String, trs: &Vec<PeaAssVar<T, A>>, noted: bool, projs: Option<&Vec<Vec<T>>>,
    aojv: &Vec<A>, zero: T, one: T, plus: &P, larger: &X, smaller: &N, over: &D, is_zero: &Z,
    lv_saturated: &G, unbalanced: &H,
) -> (r: PeaAssVar<T, A>)
    where P: Fn(T, T) -> T, X: Fn(T, T) -> T, N: Fn(T, T) -> T, D: Fn(T, T) -> T,
        Z: Fn(T) -> bool, G: Fn(T) -> bool, H: Fn(T) -> bool,
    requires
        trs.len() >= 1,
        var_index(VarType::SolarEnergy) < trs[0].v.len(),
        total2(*plus),
        total2(*larger),
        total2(*smaller),
        total2(*over),
        total1(*is_zero),
        total1(*lv_saturated),
        total1(*unbalanced),
    ensures
        is_substation_record(arid, pvid, trs@, noted, match projs { Some(p) => Some(p@), None => None },
            aojv@, zero, one, *plus, *larger, *smaller, *over, *is_zero, *lv_saturated, *unbalanced, r),
{
    let mut sbas: PeaAssVar<T, A> = PeaAssVar::from(0, zero);
    sbas.arid = arid;
    sbas.pvid = pvid;
    sbas.sbid = trs[0].sbid.clone();
    let ghost start = sbas;
    let ghost mut chain: Seq<PeaAssVar<T, A>> = seq![sbas];
    let mut names: Vec<String> = Vec::new();
    let mut j: usize = 0;
    while j < trs.len()
        invariant
            total2(*plus),
            total2(*larger),
            total2(*smaller),
            j <= trs.len(),
            chain.len() == j + 1,
            chain[0] == start,
            chain[j as int] == sbas,
            forall|k: int| 0 <= k < j ==> record_added(#[trigger] chain[k], trs@[k], chain[k + 1], *plus, *larger, *smaller),
            names@.len() == j,
            forall|k: int| 0 <= k < j ==> (#[trigger] names@[k])@ == trs@[k].aoj@,
            sbas.v.len() == VAR_COUNT,
            sbas.vy.len() == VAR_COUNT,
            sbas.arid == start.arid,
            sbas.pvid == start.pvid,
            sbas.sbid == start.sbid,
            sbas.aoj == start.aoj,
            sbas.aojv == start.aojv,
            sbas.n1d == 0,
            sbas.set == 0,
            sbas.res == zero,
        decreases trs.len() - j,
    {
        sbas.add(&trs[j], plus, larger, smaller);
        names.push(trs[j].aoj.clone());
        proof {
            chain = chain.push(sbas);
        }
        j = j + 1;
    }
    let ghost summed = sbas;
    assert(crate::aoj::texts(names@) =~= aoj_texts(trs@));
    sbas.aoj = aoj_list(&names);
    sbas.aojv = aojv.clone();
    sbas.copy_sub_figures(&trs[0]);
    let ghost c = sbas.v@;
    sbas.recalc(over, is_zero, one, zero, lv_saturated, unbalanced);
    let ghost d = sbas.v@;
    let note = if noted { one } else { zero };
    let ti: usize = VarType::TakeNote.tousz();
    sbas.v[ti].v = note;
    assert(sbas.v@ =~= d.update(note_index(), AssVar { v: note, ..d[note_index()] }));
    match projs {
        Some(p) => {
            sbas.append_projections(p);
        },
        None => {},
    }
    assert(added_chain(chain, trs@, *plus, *larger, *smaller));
    assert(chain[trs.len() as int].vy@ == summed.vy@);
    sbas
}


/// `nv` is `v` with the value of variable `rank` of each record replaced by
/// `to_value`'s outcome on the record's rank by `keys`; nothing else changes.
pub open spec fn ranks_assigned<T, A, C: Fn(usize) -> T>(v: Seq<PeaAssVar<T, A>>, keys: Seq<u64>, rank: VarType, to_value: C, nv: Seq<PeaAssVar<T, A>>) -> bool {
    &&& nv.len() == v.len()
    &&& forall|k: int| 0 <= k < v.len() ==> {
        &&& same_labels(v[k], #[trigger] nv[k])
        &&& nv[k].set == v[k].set
        &&& nv[k].res == v[k].res
        &&& nv[k].vy == v[k].vy
        &&& nv[k].v@ == v[k].v@.update(var_index(rank) as int,
            AssVar { v: nv[k].v@[var_index(rank) as int].v, ..v[k].v@[var_index(rank) as int] })
        &&& to_value.ensures((rank_of(keys, k) as usize,), nv[k].v@[var_index(rank) as int].v)
    }
}

/// Writes into variable `rank` of each record its rank by `keys`, largest
/// key first, turned into a value by `to_value`.
pub fn assign_ranks<T: Copy, A, C: Fn(usize) -> T>(v: &mut Vec<PeaAssVar<T, A>>, keys: &Vec<u64>, rank: VarType, to_value: &C)
    requires
        keys.len() == old(v).len(),
        forall|k: int| 0 <= k < old(v).len() ==> var_index(rank) < (#[trigger] old(v)[k]).v.len(),
        forall|n: usize| #[trigger] to_value.requires((n,)),
    ensures
        ranks_assigned(old(v)@, keys@, rank, *to_value, final(v)@),
{
    let ranks = rank_desc(keys);
    let ri: usize = rank.tousz();
    let ghost v0 = v@;
    let mut k: usize = 0;
    while k < v.len()
        invariant
            v.len() == v0.len(),
            keys.len() == v0.len(),
            ranks.len() == keys.len(),
            ri == var_index(rank),
            forall|j: int| 0 <= j < keys.len() ==> #[trigger] ranks[j] == rank_of(keys@, j),
            forall|n: usize| #[trigger] to_value.requires((n,)),
            forall|j: int| 0 <= j < v0.len() ==> var_index(rank) < (#[trigger] v0[j]).v.len(),
            k <= v.len(),
            forall|j: int| 0 <= j < k ==> {
                &&& same_labels(v0[j], #[trigger] v@[j])
                &&& v@[j].set == v0[j].set
                &&& v@[j].res == v0[j].res
                &&& v@[j].vy == v0[j].vy
                &&& v@[j].v@ == v0[j].v@.update(var_index(rank) as int,
                    AssVar { v: v@[j].v@[var_index(rank) as int].v, ..v0[j].v@[var_index(rank) as int] })
                &&& to_value.ensures((rank_of(keys@, j) as usize,), v@[j].v@[var_index(rank) as int].v)
            },
            forall|j: int| k <= j < v0.len() ==> #[trigger] v@[j] == v0[j],
        decreases v.len() - k,
    {
        let x = to_value(ranks[k]);
        let ghost before = v@[k as int];
        v[k].v[ri].v = x;
        assert(v@[k as int].v@ =~= before.v@.update(ri as int, AssVar { v: x, ..before.v@[ri as int] }));
        k = k + 1;
    }
}

/// `r` is a copy of `a` with each value divided by the value of `m` at its
/// position, a zero divisor counting as `one`; its offices are clones.
pub open spec fn normalised_copy<T: Clone, A: Clone, D, Z>(a: PeaAssVar<T, A>, m: PeaAssVar<T, A>, r: PeaAssVar<T, A>, over: D, is_zero: Z, one: T) -> bool
    where D: Fn(T, T) -> T, Z: Fn(T) -> bool,
{
    &&& r.arid == a.arid
    &&& r.pvid == a.pvid
    &&& r.sbid == a.sbid
    &&& r.aoj == a.aoj
    &&& r.n1d == a.n1d
    &&& r.set == a.set
    &&& r.res == a.res
    &&& r.aojv.len() == a.aojv.len()
    &&& forall|i: int| 0 <= i < a.aojv.len() ==> cloned::<A>(a.aojv[i], #[trigger] r.aojv[i])
    &&& r.vy.len() == a.vy.len()
    &&& forall|i: int| 0 <= i < a.vy.len() ==> (#[trigger] r.vy[i])@ == a.vy[i]@
    &&& same_shape(a.v@, m.v@, r.v@)
    &&& values_normalized(a.v@, m.v@, r.v@, over, is_zero, one)
}

impl<T: Copy, A: Clone> PeaAssVar<T, A> {
    /// A copy of this record divided by `m` as `nor` divides.
    pub fn normalised<D, Z>(&self, m: &PeaAssVar<T, A>, over: &D, is_zero: &Z, one: T) -> (r: PeaAssVar<T, A>)
        where D: Fn(T, T) -> T, Z: Fn(T) -> bool,
        requires
            total2(*over),
            total1(*is_zero),
        ensures
            normalised_copy(*self, *m, r, *over, *is_zero, one),
    {
        let mut vy: Vec<Vec<T>> = Vec::new();
        let mut i: usize = 0;
        while i < self.vy.len()
            invariant
                i <= self.vy.len(),
                vy.len() == i,
                forall|k: int| 0 <= k < i ==> (#[trigger] vy@[k])@ == self.vy@[k]@,
            decreases self.vy.len() - i,
        {
            vy.push(crate::ops::copy_values(&self.vy[i]));
            i = i + 1;
        }
        let mut v: Vec<AssVar<T>> = Vec::new();
        let mut k: usize = 0;
        while k < self.v.len()
            invariant
                k <= self.v.len(),
                v@ == self.v@.take(k as int),
            decreases self.v.len() - k,
        {
            v.push(self.v[k]);
            k = k + 1;
            assert(v@ =~= self.v@.take(k as int));
        }
        assert(self.v@.take(self.v.len() as int) =~= self.v@);
        let mut r = PeaAssVar {
            arid: self.arid.clone(),
            pvid: self.pvid.clone(),
            sbid: self.sbid.clone(),
            aoj: self.aoj.clone(),
            n1d: self.n1d,
            set: self.set,
            res: self.res,
            v,
            vy,
            aojv: self.aojv.clone(),
        };
        r.nor(m, over, is_zero, one);
        r
    }
}


/// The transformer records of a substation, whether it is noted, its
/// benefit projections where it has any, and its offices.
pub struct SubInput<T, A> {
    pub trs: Vec<PeaAssVar<T, A>>,
    pub noted: bool,
    pub projs: Option<Vec<Vec<T>>>,
    pub aojv: Vec<A>,
}

/// A province of an area, with its substations in order.
pub struct ProvInput<T, A> {
    pub arid: String,
    pub pvid: String,
    pub subs: Vec<SubInput<T, A>>,
}

/// The projections of a substation, as rows.
pub open spec fn opt_rows<T>(o: Option<Vec<Vec<T>>>) -> Option<Seq<Vec<T>>> {
    match o {
        Some(p) => Some(p@),
        None => None,
    }
}

/// `states` runs from its first record through taking each of `recs` into
/// a running maximum.
pub open spec fn max_chain<T, A, X: Fn(T, T) -> T>(states: Seq<PeaAssVar<T, A>>, recs: Seq<PeaAssVar<T, A>>, larger: X) -> bool {
    &&& states.len() == recs.len() + 1
    &&& forall|j: int| 0 <= j < recs.len() ==> max_taken(#[trigger] states[j], recs[j], states[j + 1], larger)
}

/// `b` is `a` with the car registrations and the GPP taken from `o`.
pub open spec fn area_figures_copied<T, A>(a: PeaAssVar<T, A>, o: PeaAssVar<T, A>, b: PeaAssVar<T, A>) -> bool {
    let n = var_index(VarType::NewCarReg) as int;
    let g = var_index(VarType::Gpp) as int;
    &&& same_labels(a, b)
    &&& b.set == a.set
    &&& b.res == a.res
    &&& b.vy == a.vy
    &&& b.v@ == a.v@.update(n, AssVar { v: o.v@[n].v, ..a.v@[n] }).update(g, AssVar { v: o.v@[g].v, ..a.v@[g] })
}

/// `chain` runs through a province's substations: each noted substation
/// record is added (into `mids`), and then the car registrations and GPP
/// of the substation's first transformer record are taken.
pub open spec fn province_chain<T, A, P, X, N>(chain: Seq<PeaAssVar<T, A>>, mids: Seq<PeaAssVar<T, A>>, srecs: Seq<PeaAssVar<T, A>>, sins: Seq<SubInput<T, A>>, plus: P, larger: X, smaller: N) -> bool
    where P: Fn(T, T) -> T, X: Fn(T, T) -> T, N: Fn(T, T) -> T,
{
    &&& chain.len() == srecs.len() + 1
    &&& mids.len() == srecs.len()
    &&& sins.len() == srecs.len()
    &&& forall|j: int| 0 <= j < srecs.len() ==> {
        &&& (if sins[j].noted { record_added(chain[j], srecs[j], #[trigger] mids[j], plus, larger, smaller) } else { mids[j] == chain[j] })
        &&& area_figures_copied(mids[j], sins[j].trs@[0], chain[j + 1])
    }
}

/// `r` is the record of the province `pvid` of area `arid`, whose
/// substations are `sins` with records `srecs`: a fresh record with the
/// area and province given, to which the record of each noted substation is
/// added in order, the car registrations and GPP being taken after each
/// substation from its first transformer record; its derived figures are
/// then recomputed.
pub open spec fn is_province_record<T, A, P, X, N, D, Z, G, H>(
    arid: String, pvid: String, srecs: Seq<PeaAssVar<T, A>>, sins: Seq<SubInput<T, A>>,
    zero: T, one: T, plus: P, larger: X, smaller: N, over: D, is_zero: Z,
    lv_saturated: G, unbalanced: H, r: PeaAssVar<T, A>,
) -> bool
    where P: Fn(T, T) -> T, X: Fn(T, T) -> T, N: Fn(T, T) -> T, D: Fn(T, T) -> T,
        Z: Fn(T) -> bool, G: Fn(T) -> bool, H: Fn(T) -> bool,
{
    exists|chain: Seq<PeaAssVar<T, A>>, mids: Seq<PeaAssVar<T, A>>| {
        &&& #[trigger] province_chain(chain, mids, srecs, sins, plus, larger, smaller)
        &&& is_fresh(chain[0], zero)
        &&& chain[0].arid == arid
        &&& chain[0].pvid == pvid
        &&& chain[0].sbid@.len() == 0
        &&& chain[0].aoj@.len() == 0
        &&& chain[0].aojv.len() == 0
        &&& same_labels(chain[srecs.len() as int], r)
        &&& r.set == chain[srecs.len() as int].set
        &&& r.res == chain[srecs.len() as int].res
        &&& r.vy == chain[srecs.len() as int].vy
        &&& recalculated(chain[srecs.len() as int].v@, r.v@, over, is_zero, one, zero, lv_saturated, unbalanced)
    }
}

/// Each substation has a transformer record, and the first one holds the
/// substation-wide figures.
pub open spec fn subs_ok<T, A>(subs: Seq<SubInput<T, A>>) -> bool {
    forall|s: int| 0 <= s < subs.len() ==> (#[trigger] subs[s]).trs.len() >= 1
        && var_index(VarType::SolarEnergy) < subs[s].trs@[0].v.len()
}

/// Builds the records of the substations of one province, appending them
/// to `out` and taking them into the running maximum `mx`, and returns the
/// province record.
fn province_pass<T: Copy, A: Clone, P, X, N, D, Z, G, H>(
    arid: &String, pvid: &String, subs: &Vec<SubInput<T, A>>, zero: T, one: T,
    plus: &P, larger: &X, smaller: &N, over: &D, is_zero: &Z, lv_saturated: &G, unbalanced: &H,
    mx: &mut PeaAssVar<T, A>, out: &mut Vec<PeaAssVar<T, A>>,
) -> (pv: PeaAssVar<T, A>)
    where P: Fn(T, T) -> T, X: Fn(T, T) -> T, N: Fn(T, T) -> T, D: Fn(T, T) -> T,
        Z: Fn(T) -> bool, G: Fn(T) -> bool, H: Fn(T) -> bool,
    requires
        subs_ok(subs@),
        old(mx).set + subs.len() < u32::MAX,
        total2(*plus),
        total2(*larger),
        total2(*smaller),
        total2(*over),
        total1(*is_zero),
        total1(*lv_saturated),
        total1(*unbalanced),
    ensures
        final(out).len() == old(out).len() + subs.len(),
        forall|k: int| 0 <= k < old(out).len() ==> #[trigger] final(out)@[k] == old(out)@[k],
        forall|s: int| 0 <= s < subs.len() ==> is_substation_record(*arid, *pvid, (#[trigger] subs@[s]).trs@,
            subs@[s].noted, opt_rows(subs@[s].projs), subs@[s].aojv@, zero, one, *plus, *larger, *smaller,
            *over, *is_zero, *lv_saturated, *unbalanced, final(out)@[old(out).len() + s]),
        exists|st: Seq<PeaAssVar<T, A>>| #[trigger] max_chain(st, final(out)@.subrange(old(out).len() as int, final(out).len() as int), *larger)
            && st[0] == *old(mx) && st[subs.len() as int] == *final(mx),
        final(mx).set == old(mx).set + subs.len(),
        is_province_record(*arid, *pvid, final(out)@.subrange(old(out).len() as int, final(out).len() as int), subs@,
            zero, one, *plus, *larger, *smaller, *over, *is_zero, *lv_saturated, *unbalanced, pv),
{
    let ghost out0 = out@;
    let ghost mx0 = *mx;
    let mut pvas: PeaAssVar<T, A> = PeaAssVar::from(0, zero);
    pvas.arid = arid.clone();
    pvas.pvid = pvid.clone();
    let ghost start = pvas;
    let ghost mut chain: Seq<PeaAssVar<T, A>> = seq![pvas];
    let ghost mut mids: Seq<PeaAssVar<T, A>> = Seq::empty();
    let ghost mut st: Seq<PeaAssVar<T, A>> = seq![*mx];
    let mut s: usize = 0;
    while s < subs.len()
        invariant
            subs_ok(subs@),
            mx0.set + subs.len() < u32::MAX,
            total2(*plus),
            total2(*larger),
            total2(*smaller),
            total2(*over),
            total1(*is_zero),
            total1(*lv_saturated),
            total1(*unbalanced),
            s <= subs.len(),
            out.len() == out0.len() + s,
            forall|k: int| 0 <= k < out0.len() ==> #[trigger] out@[k] == out0[k],
            forall|j: int| 0 <= j < s ==> is_substation_record(*arid, *pvid, (#[trigger] subs@[j]).trs@,
                subs@[j].noted, opt_rows(subs@[j].projs), subs@[j].aojv@, zero, one, *plus, *larger, *smaller,
                *over, *is_zero, *lv_saturated, *unbalanced, out@[out0.len() + j]),
            max_chain(st, out@.subrange(out0.len() as int, out.len() as int), *larger),
            st[0] == mx0,
            st[s as int] == *mx,
            mx.set == mx0.set + s,
            province_chain(chain, mids, out@.subrange(out0.len() as int, out.len() as int), subs@.take(s as int), *plus, *larger, *smaller),
            chain[0] == start,
            chain[s as int] == pvas,
            pvas.v.len() == VAR_COUNT,
            pvas.vy.len() == VAR_COUNT,
        decreases subs.len() - s,
    {
        let sub = &subs[s];
        let projs: Option<&Vec<Vec<T>>> = match &sub.projs {
            Some(p) => Some(p),
            None => None,
        };
        let sbas = substation_record(arid.clone(), pvid.clone(), &sub.trs, sub.noted, projs, &sub.aojv,
            zero, one, plus, larger, smaller, over, is_zero, lv_saturated, unbalanced);
        assert(match projs { Some(p) => Some(p@), None => None } == opt_rows(subs@[s as int].projs));
        mx.max(&sbas, larger);
        let ghost before = pvas;
        if sub.noted {
            pvas.add(&sbas, plus, larger, smaller);
        }
        let ghost mid = pvas;
        pvas.copy(&sub.trs[0], VarType::NewCarReg);
        pvas.copy(&sub.trs[0], VarType::Gpp);
        let ghost old_seg = out@.subrange(out0.len() as int, out.len() as int);
        out.push(sbas);
        proof {
            let seg = out@.subrange(out0.len() as int, out.len() as int);
            assert(seg =~= old_seg.push(sbas));
            st = st.push(*mx);
            chain = chain.push(pvas);
            mids = mids.push(mid);
            assert(subs@.take(s + 1) =~= subs@.take(s as int).push(subs@[s as int]));
            assert(area_figures_copied(mid, subs@[s as int].trs@[0], pvas));
        }
        s = s + 1;
    }
    assert(subs@.take(subs.len() as int) =~= subs@);
    let ghost fin = pvas;
    pvas.recalc(over, is_zero, one, zero, lv_saturated, unbalanced);
    pvas
}


/// The records of a stage: of each substation (ranked), of each province,
/// the running maximum of the substation records, and each substation
/// record divided by that maximum.
pub struct StageOutput<T, A> {
    pub subs: Vec<PeaAssVar<T, A>>,
    pub provs: Vec<PeaAssVar<T, A>>,
    pub sub_max: PeaAssVar<T, A>,
    pub subs_normalised: Vec<PeaAssVar<T, A>>,
}

/// The number of substations in the first `p` provinces.
pub open spec fn sub_offset<T, A>(ps: Seq<ProvInput<T, A>>, p: int) -> int
    decreases p,
{
    if p <= 0 {
        0
    } else {
        sub_offset(ps, p - 1) + ps[p - 1].subs.len()
    }
}

/// The record, among `recs` in the order of the provinces, of substation
/// `s` of province `p`.
pub open spec fn flat_at<T, A>(recs: Seq<PeaAssVar<T, A>>, ps: Seq<ProvInput<T, A>>, p: int, s: int) -> PeaAssVar<T, A> {
    recs[sub_offset(ps, p) + s]
}

/// Offsets grow with the number of provinces.
pub proof fn lemma_sub_offset_mono<T, A>(ps: Seq<ProvInput<T, A>>, q: int, p: int)
    requires
        0 <= q <= p <= ps.len(),
    ensures
        0 <= sub_offset(ps, q) <= sub_offset(ps, p),
    decreases p,
{
    if q < p {
        lemma_sub_offset_mono(ps, q, p - 1);
    } else if p > 0 {
        lemma_sub_offset_mono(ps, 0, p - 1);
    }
}

/// `ks` are `key`'s outcomes on the values of variable `t` of `v`.
pub open spec fn keys_of<T, A, K: Fn(T) -> u64>(v: Seq<PeaAssVar<T, A>>, t: VarType, key: K, ks: Seq<u64>) -> bool {
    &&& ks.len() == v.len()
    &&& forall|k: int| 0 <= k < v.len() ==> key.ensures((v[k].v@[var_index(t) as int].v,), #[trigger] ks[k])
}

/// The keys of the records by the value of variable `t`.
fn keys_by<T: Copy, A, K: Fn(T) -> u64>(v: &Vec<PeaAssVar<T, A>>, t: VarType, key: &K) -> (ks: Vec<u64>)
    requires
        forall|k: int| 0 <= k < v.len() ==> var_index(t) < (#[trigger] v@[k]).v.len(),
        forall|x: T| #[trigger] key.requires((x,)),
    ensures
        keys_of(v@, t, *key, ks@),
{
    let ti: usize = t.tousz();
    let mut ks: Vec<u64> = Vec::new();
    let mut k: usize = 0;
    while k < v.len()
        invariant
            ti == var_index(t),
            forall|j: int| 0 <= j < v.len() ==> var_index(t) < (#[trigger] v@[j]).v.len(),
            forall|x: T| #[trigger] key.requires((x,)),
            k <= v.len(),
            ks.len() == k,
            forall|j: int| 0 <= j < k ==> key.ensures((v@[j].v@[var_index(t) as int].v,), #[trigger] ks@[j]),
        decreases v.len() - k,
    {
        let x = key(v[k].v[ti].v);
        ks.push(x);
        k = k + 1;
    }
    ks
}

/// Chaining two runs of a running maximum, the second starting where the
/// first ends.
proof fn lemma_max_chain_concat<T, A, X: Fn(T, T) -> T>(s1: Seq<PeaAssVar<T, A>>, r1: Seq<PeaAssVar<T, A>>, s2: Seq<PeaAssVar<T, A>>, r2: Seq<PeaAssVar<T, A>>, larger: X)
    requires
        max_chain(s1, r1, larger),
        max_chain(s2, r2, larger),
        s1[r1.len() as int] == s2[0],
    ensures
        max_chain(s1 + s2.skip(1), r1 + r2, larger),
{
    let s = s1 + s2.skip(1);
    let r = r1 + r2;
    assert forall|j: int| 0 <= j < r.len() implies max_taken(#[trigger] s[j], r[j], s[j + 1], larger) by {
        if j < r1.len() {
            assert(s[j] == s1[j] && s[j + 1] == s1[j + 1] && r[j] == r1[j]);
        } else {
            let i = j - r1.len();
            assert(s[j] == s2[i] && s[j + 1] == s2[i + 1] && r[j] == r2[i]);
        }
    }
}

/// The substation records `pre`, in the order of the provinces, are those
/// of the substations of `ps`.
pub open spec fn stage_subs_built<T, A: Clone, P, X, N, D, Z, G, H>(
    ps: Seq<ProvInput<T, A>>, pre: Seq<PeaAssVar<T, A>>, zero: T, one: T, plus: P, larger: X, smaller: N,
    over: D, is_zero: Z, lv_saturated: G, unbalanced: H,
) -> bool
    where P: Fn(T, T) -> T, X: Fn(T, T) -> T, N: Fn(T, T) -> T, D: Fn(T, T) -> T,
        Z: Fn(T) -> bool, G: Fn(T) -> bool, H: Fn(T) -> bool,
{
    &&& pre.len() == sub_offset(ps, ps.len() as int)
    &&& forall|p: int, s: int| 0 <= p < ps.len() && 0 <= s < ps[p].subs.len() ==> is_substation_record(ps[p].arid,
        ps[p].pvid, ps[p].subs@[s].trs@, ps[p].subs@[s].noted, opt_rows(ps[p].subs@[s].projs), ps[p].subs@[s].aojv@,
        zero, one, plus, larger, smaller, over, is_zero, lv_saturated, unbalanced, #[trigger] flat_at(pre, ps, p, s))
}

/// `provs` are the records of the provinces of `ps`, built from the
/// substation records `pre`.
pub open spec fn stage_provs_built<T, A, P, X, N, D, Z, G, H>(
    ps: Seq<ProvInput<T, A>>, pre: Seq<PeaAssVar<T, A>>, provs: Seq<PeaAssVar<T, A>>, zero: T, one: T,
    plus: P, larger: X, smaller: N, over: D, is_zero: Z, lv_saturated: G, unbalanced: H,
) -> bool
    where P: Fn(T, T) -> T, X: Fn(T, T) -> T, N: Fn(T, T) -> T, D: Fn(T, T) -> T,
        Z: Fn(T) -> bool, G: Fn(T) -> bool, H: Fn(T) -> bool,
{
    &&& provs.len() == ps.len()
    &&& forall|p: int| 0 <= p < ps.len() ==> is_province_record(ps[p].arid, ps[p].pvid,
        pre.subrange(sub_offset(ps, p), sub_offset(ps, p + 1)), ps[p].subs@, zero, one, plus, larger, smaller,
        over, is_zero, lv_saturated, unbalanced, #[trigger] provs[p])
}

/// `mx` is the running maximum of the records `pre`, taken in order into a
/// fresh record (`mxs` its states); at each position it holds the first
/// record's value raised by each later one.
pub open spec fn stage_max<T, A, X: Fn(T, T) -> T>(pre: Seq<PeaAssVar<T, A>>, mxs: Seq<PeaAssVar<T, A>>, mx: PeaAssVar<T, A>, zero: T, larger: X) -> bool {
    &&& max_chain(mxs, pre, larger)
    &&& is_fresh(mxs[0], zero)
    &&& mxs[0].arid@.len() == 0
    &&& mxs[0].pvid@.len() == 0
    &&& mxs[0].sbid@.len() == 0
    &&& mxs[0].aoj@.len() == 0
    &&& mxs[0].aojv.len() == 0
    &&& mxs[pre.len() as int] == mx
    &&& pre.len() >= 1 ==> forall|i: int| 0 <= i < VAR_COUNT ==>
        is_fold(larger, pre[0].v[i].v, #[trigger] column(pre, i).drop_first(), mx.v[i].v)
}

/// `fin` is `pre` ranked by the first, second and third use-case values in
/// turn (`m1` and `m2` between, `k1` to `k3` the keys).
pub open spec fn stage_ranked<T, A, K: Fn(T) -> u64, C: Fn(usize) -> T>(
    pre: Seq<PeaAssVar<T, A>>, m1: Seq<PeaAssVar<T, A>>, m2: Seq<PeaAssVar<T, A>>, fin: Seq<PeaAssVar<T, A>>,
    k1: Seq<u64>, k2: Seq<u64>, k3: Seq<u64>, key: K, to_value: C,
) -> bool {
    &&& keys_of(pre, VarType::Uc1Val, key, k1)
    &&& ranks_assigned(pre, k1, VarType::Uc1Rank, to_value, m1)
    &&& keys_of(m1, VarType::Uc2Val, key, k2)
    &&& ranks_assigned(m1, k2, VarType::Uc2Rank, to_value, m2)
    &&& keys_of(m2, VarType::Uc3Val, key, k3)
    &&& ranks_assigned(m2, k3, VarType::Uc3Rank, to_value, fin)
}

/// `nos` are the records `fin` each divided by `mx`.
pub open spec fn stage_normalised<T: Clone, A: Clone, D: Fn(T, T) -> T, Z: Fn(T) -> bool>(
    fin: Seq<PeaAssVar<T, A>>, mx: PeaAssVar<T, A>, nos: Seq<PeaAssVar<T, A>>, over: D, is_zero: Z, one: T,
) -> bool {
    &&& nos.len() == fin.len()
    &&& forall|k: int| 0 <= k < fin.len() ==> normalised_copy(fin[k], mx, #[trigger] nos[k], over, is_zero, one)
}

/// `out` is the outcome of a stage on `ps`: `pre` the substation records
/// before ranking, `mxs` the states of the running maximum, `m1` and `m2`
/// the records between rankings, `k1` to `k3` the ranking keys.
pub open spec fn stage_done<T: Clone, A: Clone, P, X, N, D, Z, G, H, K, C>(
    ps: Seq<ProvInput<T, A>>, zero: T, one: T, plus: P, larger: X, smaller: N, over: D, is_zero: Z,
    lv_saturated: G, unbalanced: H, key: K, to_value: C, out: StageOutput<T, A>,
    pre: Seq<PeaAssVar<T, A>>, mxs: Seq<PeaAssVar<T, A>>, m1: Seq<PeaAssVar<T, A>>, m2: Seq<PeaAssVar<T, A>>,
    k1: Seq<u64>, k2: Seq<u64>, k3: Seq<u64>,
) -> bool
    where P: Fn(T, T) -> T, X: Fn(T, T) -> T, N: Fn(T, T) -> T, D: Fn(T, T) -> T,
        Z: Fn(T) -> bool, G: Fn(T) -> bool, H: Fn(T) -> bool, K: Fn(T) -> u64, C: Fn(usize) -> T,
{
    &&& stage_subs_built(ps, pre, zero, one, plus, larger, smaller, over, is_zero, lv_saturated, unbalanced)
    &&& stage_provs_built(ps, pre, out.provs@, zero, one, plus, larger, smaller, over, is_zero, lv_saturated, unbalanced)
    &&& stage_max(pre, mxs, out.sub_max, zero, larger)
    &&& forall|k: int| 0 <= k < pre.len() ==> (#[trigger] pre[k]).v.len() == VAR_COUNT
    &&& stage_ranked(pre, m1, m2, out.subs@, k1, k2, k3, key, to_value)
    &&& stage_normalised(out.subs@, out.sub_max, out.subs_normalised@, over, is_zero, one)
}

/// The records `recs` hold, in order, those of the substations of the
/// first `p` provinces of `ps`.
pub open spec fn subs_upto<T, A: Clone, P, X, N, D, Z, G, H>(
    ps: Seq<ProvInput<T, A>>, recs: Seq<PeaAssVar<T, A>>, p: int, zero: T, one: T, plus: P, larger: X, smaller: N,
    over: D, is_zero: Z, lv_saturated: G, unbalanced: H,
) -> bool
    where P: Fn(T, T) -> T, X: Fn(T, T) -> T, N: Fn(T, T) -> T, D: Fn(T, T) -> T,
        Z: Fn(T) -> bool, G: Fn(T) -> bool, H: Fn(T) -> bool,
{
    forall|q: int, s: int| 0 <= q < p && 0 <= s < ps[q].subs.len() ==> is_substation_record(ps[q].arid,
        ps[q].pvid, ps[q].subs@[s].trs@, ps[q].subs@[s].noted, opt_rows(ps[q].subs@[s].projs), ps[q].subs@[s].aojv@,
        zero, one, plus, larger, smaller, over, is_zero, lv_saturated, unbalanced, #[trigger] flat_at(recs, ps, q, s))
}

/// `provs` hold, in order, the records of the first `p` provinces of `ps`,
/// built from the substation records `recs`.
pub open spec fn provs_upto<T, A, P, X, N, D, Z, G, H>(
    ps: Seq<ProvInput<T, A>>, recs: Seq<PeaAssVar<T, A>>, provs: Seq<PeaAssVar<T, A>>, p: int, zero: T, one: T,
    plus: P, larger: X, smaller: N, over: D, is_zero: Z, lv_saturated: G, unbalanced: H,
) -> bool
    where P: Fn(T, T) -> T, X: Fn(T, T) -> T, N: Fn(T, T) -> T, D: Fn(T, T) -> T,
        Z: Fn(T) -> bool, G: Fn(T) -> bool, H: Fn(T) -> bool,
{
    forall|q: int| 0 <= q < p ==> is_province_record(ps[q].arid, ps[q].pvid,
        recs.subrange(sub_offset(ps, q), sub_offset(ps, q + 1)), ps[q].subs@, zero, one, plus, larger, smaller,
        over, is_zero, lv_saturated, unbalanced, #[trigger] provs[q])
}

/// Appending the records of the substations of province `p` extends what
/// `subs_upto` says by that province.
proof fn lemma_subs_step<T, A: Clone, P, X, N, D, Z, G, H>(
    ps: Seq<ProvInput<T, A>>, old_recs: Seq<PeaAssVar<T, A>>, recs: Seq<PeaAssVar<T, A>>, p: int, zero: T, one: T,
    plus: P, larger: X, smaller: N, over: D, is_zero: Z, lv_saturated: G, unbalanced: H,
)
    where P: Fn(T, T) -> T, X: Fn(T, T) -> T, N: Fn(T, T) -> T, D: Fn(T, T) -> T,
        Z: Fn(T) -> bool, G: Fn(T) -> bool, H: Fn(T) -> bool,
    requires
        0 <= p < ps.len(),
        old_recs.len() == sub_offset(ps, p),
        recs.len() == old_recs.len() + ps[p].subs.len(),
        forall|k: int| 0 <= k < old_recs.len() ==> #[trigger] recs[k] == old_recs[k],
        subs_upto(ps, old_recs, p, zero, one, plus, larger, smaller, over, is_zero, lv_saturated, unbalanced),
        forall|s: int| 0 <= s < ps[p].subs.len() ==> is_substation_record(ps[p].arid, ps[p].pvid,
            (#[trigger] ps[p].subs@[s]).trs@, ps[p].subs@[s].noted, opt_rows(ps[p].subs@[s].projs),
            ps[p].subs@[s].aojv@, zero, one, plus, larger, smaller, over, is_zero, lv_saturated, unbalanced,
            recs[old_recs.len() + s]),
    ensures
        subs_upto(ps, recs, p + 1, zero, one, plus, larger, smaller, over, is_zero, lv_saturated, unbalanced),
{
    assert forall|q: int, s: int| 0 <= q < p + 1 && 0 <= s < ps[q].subs.len() implies is_substation_record(ps[q].arid,
        ps[q].pvid, ps[q].subs@[s].trs@, ps[q].subs@[s].noted, opt_rows(ps[q].subs@[s].projs), ps[q].subs@[s].aojv@,
        zero, one, plus, larger, smaller, over, is_zero, lv_saturated, unbalanced, #[trigger] flat_at(recs, ps, q, s)) by {
        if q < p {
            lemma_sub_offset_mono(ps, q + 1, p);
            lemma_sub_offset_mono(ps, 0, q);
            assert(flat_at(recs, ps, q, s) == flat_at(old_recs, ps, q, s));
        } else {
            assert(ps[p].subs@[s] == ps[q].subs@[s]);
        }
    }
}

/// Appending the records of the substations of province `p`, and its
/// record, extends what `provs_upto` says by that province.
proof fn lemma_provs_step<T, A, P, X, N, D, Z, G, H>(
    ps: Seq<ProvInput<T, A>>, old_recs: Seq<PeaAssVar<T, A>>, recs: Seq<PeaAssVar<T, A>>,
    old_provs: Seq<PeaAssVar<T, A>>, provs: Seq<PeaAssVar<T, A>>, p: int, zero: T, one: T,
    plus: P, larger: X, smaller: N, over: D, is_zero: Z, lv_saturated: G, unbalanced: H,
)
    where P: Fn(T, T) -> T, X: Fn(T, T) -> T, N: Fn(T, T) -> T, D: Fn(T, T) -> T,
        Z: Fn(T) -> bool, G: Fn(T) -> bool, H: Fn(T) -> bool,
    requires
        0 <= p < ps.len(),
        old_recs.len() == sub_offset(ps, p),
        recs.len() == old_recs.len() + ps[p].subs.len(),
        forall|k: int| 0 <= k < old_recs.len() ==> #[trigger] recs[k] == old_recs[k],
        old_provs.len() == p,
        provs == old_provs.push(provs[p]),
        provs_upto(ps, old_recs, old_provs, p, zero, one, plus, larger, smaller, over, is_zero, lv_saturated, unbalanced),
        is_province_record(ps[p].arid, ps[p].pvid, recs.subrange(old_recs.len() as int, recs.len() as int), ps[p].subs@,
            zero, one, plus, larger, smaller, over, is_zero, lv_saturated, unbalanced, provs[p]),
    ensures
        provs_upto(ps, recs, provs, p + 1, zero, one, plus, larger, smaller, over, is_zero, lv_saturated, unbalanced),
{
    assert forall|q: int| 0 <= q < p + 1 implies is_province_record(ps[q].arid, ps[q].pvid,
        recs.subrange(sub_offset(ps, q), sub_offset(ps, q + 1)), ps[q].subs@, zero, one, plus, larger, smaller,
        over, is_zero, lv_saturated, unbalanced, #[trigger] provs[q]) by {
        if q < p {
            lemma_sub_offset_mono(ps, q + 1, p);
            lemma_sub_offset_mono(ps, q, q + 1);
            assert(recs.subrange(sub_offset(ps, q), sub_offset(ps, q + 1))
                =~= old_recs.subrange(sub_offset(ps, q), sub_offset(ps, q + 1)));
            assert(provs[q] == old_provs[q]);
        }
    }
}

/// Sums up the transformer records of each substation of each province in
/// `ps` (taken in area, province and substation order) into substation
/// records, and those of the noted substations into province records; keeps
/// the running maximum of the substation records; ranks the substation
/// records by the three use-case values, `key` ordering the values and
/// `to_value` turning a rank into a value; and divides each ranked record
/// by the maximum.
pub fn stage<T: Copy, A: Clone, P, X, N, D, Z, G, H, K, C>(
    ps: &Vec<ProvInput<T, A>>, zero: T, one: T, plus: &P, larger: &X, smaller: &N, over: &D, is_zero: &Z,
    lv_saturated: &G, unbalanced: &H, key: &K, to_value: &C,
) -> (out: StageOutput<T, A>)
    where P: Fn(T, T) -> T, X: Fn(T, T) -> T, N: Fn(T, T) -> T, D: Fn(T, T) -> T,
        Z: Fn(T) -> bool, G: Fn(T) -> bool, H: Fn(T) -> bool, K: Fn(T) -> u64, C: Fn(usize) -> T,
    requires
        forall|p: int| 0 <= p < ps.len() ==> subs_ok((#[trigger] ps@[p]).subs@),
        sub_offset(ps@, ps.len() as int) < u32::MAX,
        total2(*plus),
        total2(*larger),
        total2(*smaller),
        total2(*over),
        total1(*is_zero),
        total1(*lv_saturated),
        total1(*unbalanced),
        forall|x: T| #[trigger] key.requires((x,)),
        forall|n: usize| #[trigger] to_value.requires((n,)),
    ensures
        exists|pre: Seq<PeaAssVar<T, A>>, mxs: Seq<PeaAssVar<T, A>>, m1: Seq<PeaAssVar<T, A>>, m2: Seq<PeaAssVar<T, A>>,
            k1: Seq<u64>, k2: Seq<u64>, k3: Seq<u64>|
            #[trigger] stage_done(ps@, zero, one, *plus, *larger, *smaller, *over, *is_zero, *lv_saturated,
                *unbalanced, *key, *to_value, out, pre, mxs, m1, m2, k1, k2, k3),
{
    let mut mx: PeaAssVar<T, A> = PeaAssVar::from(0, zero);
    let ghost mx0 = mx;
    let ghost mut mxs: Seq<PeaAssVar<T, A>> = seq![mx];
    let mut subs: Vec<PeaAssVar<T, A>> = Vec::new();
    let mut provs: Vec<PeaAssVar<T, A>> = Vec::new();
    let mut p: usize = 0;
    while p < ps.len()
        invariant
            forall|q: int| 0 <= q < ps.len() ==> subs_ok((#[trigger] ps@[q]).subs@),
            sub_offset(ps@, ps.len() as int) < u32::MAX,
            total2(*plus),
            total2(*larger),
            total2(*smaller),
            total2(*over),
            total1(*is_zero),
            total1(*lv_saturated),
            total1(*unbalanced),
            p <= ps.len(),
            subs.len() == sub_offset(ps@, p as int),
            provs.len() == p,
            subs_upto(ps@, subs@, p as int, zero, one, *plus, *larger, *smaller, *over, *is_zero, *lv_saturated, *unbalanced),
            provs_upto(ps@, subs@, provs@, p as int, zero, one, *plus, *larger, *smaller, *over, *is_zero, *lv_saturated, *unbalanced),
            max_chain(mxs, subs@, *larger),
            mxs[0] == mx0,
            mxs[subs.len() as int] == mx,
            mx.set == subs.len(),
            forall|k: int| 0 <= k < subs.len() ==> (#[trigger] subs@[k]).v.len() == VAR_COUNT,
        decreases ps.len() - p,
    {
        let ghost old_subs = subs@;
        let ghost old_mx = mx;
        let ghost old_provs = provs@;
        proof {
            lemma_sub_offset_mono(ps@, p + 1, ps.len() as int);
        }
        let pv = province_pass(&ps[p].arid, &ps[p].pvid, &ps[p].subs, zero, one, plus, larger, smaller, over,
            is_zero, lv_saturated, unbalanced, &mut mx, &mut subs);
        provs.push(pv);
        proof {
            let n0 = old_subs.len() as int;
            let seg = subs@.subrange(n0, subs.len() as int);
            assert(subs@ =~= old_subs + seg);
            let st = choose|st: Seq<PeaAssVar<T, A>>| #[trigger] max_chain(st, seg, *larger)
                && st[0] == old_mx && st[ps@[p as int].subs.len() as int] == mx;
            lemma_max_chain_concat(mxs, old_subs, st, seg, *larger);
            mxs = mxs + st.skip(1);
            lemma_subs_step(ps@, old_subs, subs@, p as int, zero, one, *plus, *larger, *smaller, *over, *is_zero,
                *lv_saturated, *unbalanced);
            assert(provs@ == old_provs.push(provs@[p as int]));
            lemma_provs_step(ps@, old_subs, subs@, old_provs, provs@, p as int, zero, one, *plus, *larger, *smaller,
                *over, *is_zero, *lv_saturated, *unbalanced);
            assert forall|k: int| 0 <= k < subs.len() implies (#[trigger] subs@[k]).v.len() == VAR_COUNT by {
                if k >= n0 {
                    let s = k - n0;
                    assert(is_substation_record(ps@[p as int].arid, ps@[p as int].pvid,
                        ps@[p as int].subs@[s].trs@, ps@[p as int].subs@[s].noted,
                        opt_rows(ps@[p as int].subs@[s].projs), ps@[p as int].subs@[s].aojv@, zero, one, *plus,
                        *larger, *smaller, *over, *is_zero, *lv_saturated, *unbalanced, subs@[n0 + s]));
                } else {
                    assert(subs@[k] == old_subs[k]);
                }
            }
        }
        p = p + 1;
    }
    let ghost pre = subs@;
    proof {
        if pre.len() >= 1 {
            assert forall|i: int| 0 <= i < VAR_COUNT implies
                is_fold(*larger, pre[0].v[i].v, #[trigger] column(pre, i).drop_first(), mx.v[i].v) by {
                assert forall|k: int| 0 <= k < pre.len() implies (#[trigger] pre[k]).v.len() == mxs[0].v.len() by {
                    assert(subs@[k].v.len() == VAR_COUNT);
                }
                lemma_running_max(mxs, pre, *larger, i);
            }
        }
    }
    let k1 = keys_by(&subs, VarType::Uc1Val, key);
    assign_ranks(&mut subs, &k1, VarType::Uc1Rank, to_value);
    let ghost m1 = subs@;
    let k2 = keys_by(&subs, VarType::Uc2Val, key);
    assign_ranks(&mut subs, &k2, VarType::Uc2Rank, to_value);
    let ghost m2 = subs@;
    let k3 = keys_by(&subs, VarType::Uc3Val, key);
    assign_ranks(&mut subs, &k3, VarType::Uc3Rank, to_value);
    let mut nos: Vec<PeaAssVar<T, A>> = Vec::new();
    let mut k: usize = 0;
    while k < subs.len()
        invariant
            total2(*over),
            total1(*is_zero),
            k <= subs.len(),
            nos.len() == k,
            forall|j: int| 0 <= j < k ==> normalised_copy(subs@[j], mx, #[trigger] nos@[j], *over, *is_zero, one),
        decreases subs.len() - k,
    {
        let r = subs[k].normalised(&mx, over, is_zero, one);
        nos.push(r);
        k = k + 1;
    }
    let out = StageOutput { subs, provs, sub_max: mx, subs_normalised: nos };
    assert(stage_done(ps@, zero, one, *plus, *larger, *smaller, *over, *is_zero, *lv_saturated,
        *unbalanced, *key, *to_value, out, pre, mxs, m1, m2, k1@, k2@, k3@));
    out
}

/// Every state of a substation's running record has an entry per variable.
proof fn lemma_added_chain_lengths<T, A, P, X, N>(chain: Seq<PeaAssVar<T, A>>, trs: Seq<PeaAssVar<T, A>>,
    plus: P, larger: X, smaller: N, j: int)
    where P: Fn(T, T) -> T, X: Fn(T, T) -> T, N: Fn(T, T) -> T,
    requires
        added_chain(chain, trs, plus, larger, smaller),
        chain[0].v.len() == VAR_COUNT,
        0 <= j <= trs.len(),
    ensures
        chain[j].v.len() == VAR_COUNT,
    decreases j,
{
    if j > 0 {
        lemma_added_chain_lengths(chain, trs, plus, larger, smaller, j - 1);
        let i = j - 1;
        assert(record_added(chain[i], trs[i], chain[i + 1], plus, larger, smaller));
    }
}

/// The substation-wide figures taken from `o` survive the recomputation of
/// the derived figures and the setting of the note flag.
proof fn lemma_figures_survive<T, D, Z, G, H>(v: Seq<AssVar<T>>, o: Seq<AssVar<T>>, c: Seq<AssVar<T>>,
    d: Seq<AssVar<T>>, rv: Seq<AssVar<T>>, noted: bool, over: D, is_zero: Z, one: T, zero: T, lv_saturated: G,
    unbalanced: H)
    where D: Fn(T, T) -> T, Z: Fn(T) -> bool, G: Fn(T) -> bool, H: Fn(T) -> bool,
    requires
        sub_figures_copied(v, o, c),
        recalculated(c, d, over, is_zero, one, zero, lv_saturated, unbalanced),
        rv == d.update(note_index(), AssVar { v: if noted { one } else { zero }, ..d[note_index()] }),
        v.len() == VAR_COUNT,
    ensures
        val(rv, VarType::NewCarReg) == val(o, VarType::NewCarReg),
        val(rv, VarType::Gpp) == val(o, VarType::Gpp),
        val(rv, VarType::MaxPosPowSub) == val(o, VarType::MaxPosPowSub),
        val(rv, VarType::MaxNegPowSub) == val(o, VarType::MaxNegPowSub),
        val(rv, VarType::VsppMv) == val(o, VarType::VsppMv),
        val(rv, VarType::SppHv) == val(o, VarType::SppHv),
        val(rv, VarType::BigLotMv) == val(o, VarType::BigLotMv),
        val(rv, VarType::BigLotHv) == val(o, VarType::BigLotHv),
        val(rv, VarType::SubPowCap) == val(o, VarType::SubPowCap),
        val(rv, VarType::SolarEnergy) == val(o, VarType::SolarEnergy),
{
    assert(c.len() == VAR_COUNT);
    assert(d.len() == VAR_COUNT);
    lemma_sub_figures_from_first(v, o, c);
    lemma_recalc_figures(c, d, over, is_zero, one, zero, lv_saturated, unbalanced);
    assert(rv[var_index(VarType::NewCarReg) as int] == d[var_index(VarType::NewCarReg) as int]);
    assert(d[var_index(VarType::NewCarReg) as int] == c[var_index(VarType::NewCarReg) as int]);
    assert(rv[var_index(VarType::Gpp) as int] == d[var_index(VarType::Gpp) as int]);
    assert(d[var_index(VarType::Gpp) as int] == c[var_index(VarType::Gpp) as int]);
    assert(rv[var_index(VarType::MaxPosPowSub) as int] == d[var_index(VarType::MaxPosPowSub) as int]);
    assert(d[var_index(VarType::MaxPosPowSub) as int] == c[var_index(VarType::MaxPosPowSub) as int]);
    assert(rv[var_index(VarType::MaxNegPowSub) as int] == d[var_index(VarType::MaxNegPowSub) as int]);
    assert(d[var_index(VarType::MaxNegPowSub) as int] == c[var_index(VarType::MaxNegPowSub) as int]);
    assert(rv[var_index(VarType::VsppMv) as int] == d[var_index(VarType::VsppMv) as int]);
    assert(d[var_index(VarType::VsppMv) as int] == c[var_index(VarType::VsppMv) as int]);
    assert(rv[var_index(VarType::SppHv) as int] == d[var_index(VarType::SppHv) as int]);
    assert(d[var_index(VarType::SppHv) as int] == c[var_index(VarType::SppHv) as int]);
    assert(rv[var_index(VarType::BigLotMv) as int] == d[var_index(VarType::BigLotMv) as int]);
    assert(d[var_index(VarType::BigLotMv) as int] == c[var_index(VarType::BigLotMv) as int]);
    assert(rv[var_index(VarType::BigLotHv) as int] == d[var_index(VarType::BigLotHv) as int]);
    assert(d[var_index(VarType::BigLotHv) as int] == c[var_index(VarType::BigLotHv) as int]);
    assert(rv[var_index(VarType::SubPowCap) as int] == d[var_index(VarType::SubPowCap) as int]);
    assert(d[var_index(VarType::SubPowCap) as int] == c[var_index(VarType::SubPowCap) as int]);
    assert(rv[var_index(VarType::SolarEnergy) as int] == d[var_index(VarType::SolarEnergy) as int]);
    assert(d[var_index(VarType::SolarEnergy) as int] == c[var_index(VarType::SolarEnergy) as int]);
}

/// A substation record holds the substation-wide figures of its first
/// transformer record: car registrations, GPP, the substation's peak
/// powers, its power producers on MV and HV, its large customers on MV and
/// HV, its capacity and its solar energy.
pub proof fn lemma_substation_figures_from_first<T, A: Clone, P, X, N, D, Z, G, H>(
    arid: String, pvid: String, trs: Seq<PeaAssVar<T, A>>, noted: bool, projs: Option<Seq<Vec<T>>>,
    aojv: Seq<A>, zero: T, one: T, plus: P, larger: X, smaller: N, over: D, is_zero: Z,
    lv_saturated: G, unbalanced: H, r: PeaAssVar<T, A>,
)
    where P: Fn(T, T) -> T, X: Fn(T, T) -> T, N: Fn(T, T) -> T, D: Fn(T, T) -> T,
        Z: Fn(T) -> bool, G: Fn(T) -> bool, H: Fn(T) -> bool,
    requires
        is_substation_record(arid, pvid, trs, noted, projs, aojv, zero, one, plus, larger, smaller, over, is_zero,
            lv_saturated, unbalanced, r),
    ensures
        val(r.v@, VarType::NewCarReg) == val(trs[0].v@, VarType::NewCarReg),
        val(r.v@, VarType::Gpp) == val(trs[0].v@, VarType::Gpp),
        val(r.v@, VarType::MaxPosPowSub) == val(trs[0].v@, VarType::MaxPosPowSub),
        val(r.v@, VarType::MaxNegPowSub) == val(trs[0].v@, VarType::MaxNegPowSub),
        val(r.v@, VarType::VsppMv) == val(trs[0].v@, VarType::VsppMv),
        val(r.v@, VarType::SppHv) == val(trs[0].v@, VarType::SppHv),
        val(r.v@, VarType::BigLotMv) == val(trs[0].v@, VarType::BigLotMv),
        val(r.v@, VarType::BigLotHv) == val(trs[0].v@, VarType::BigLotHv),
        val(r.v@, VarType::SubPowCap) == val(trs[0].v@, VarType::SubPowCap),
        val(r.v@, VarType::SolarEnergy) == val(trs[0].v@, VarType::SolarEnergy),
{
    let (chain, c, d) = choose|chain: Seq<PeaAssVar<T, A>>, c: Seq<AssVar<T>>, d: Seq<AssVar<T>>| {
        &&& #[trigger] added_chain(chain, trs, plus, larger, smaller)
        &&& is_fresh(chain[0], zero)
        &&& #[trigger] sub_figures_copied(chain[trs.len() as int].v@, trs[0].v@, c)
        &&& #[trigger] recalculated(c, d, over, is_zero, one, zero, lv_saturated, unbalanced)
        &&& r.v@ == d.update(note_index(), AssVar { v: if noted { one } else { zero }, ..d[note_index()] })
        &&& match projs {
            Some(p) => projections_appended(chain[trs.len() as int].vy@, p, r.vy@),
            None => r.vy@ == chain[trs.len() as int].vy@,
        }
    };
    lemma_added_chain_lengths(chain, trs, plus, larger, smaller, trs.len() as int);
    lemma_figures_survive(chain[trs.len() as int].v@, trs[0].v@, c, d, r.v@, noted, over, is_zero, one, zero,
        lv_saturated, unbalanced);
}

/// `recs` are ranked by variable `val` into variable `rank`: for some
/// outcomes `ks` of `key` on the records' values of `val`, each record's
/// value of `rank` is `to_value`'s outcome on its rank by `ks`, largest key
/// first.
pub open spec fn ranked_by<T, A, K: Fn(T) -> u64, C: Fn(usize) -> T>(recs: Seq<PeaAssVar<T, A>>, val: VarType,
    rank: VarType, key: K, to_value: C) -> bool {
    exists|ks: Seq<u64>| {
        &&& #[trigger] ks.len() == recs.len()
        &&& forall|k: int| 0 <= k < recs.len() ==> key.ensures((recs[k].v@[var_index(val) as int].v,), #[trigger] ks[k])
        &&& forall|k: int| 0 <= k < recs.len() ==>
            to_value.ensures((rank_of(ks, k) as usize,), (#[trigger] recs[k]).v@[var_index(rank) as int].v)
    }
}

/// The substation records of a stage are ranked by each use-case value
/// into its own rank: the first use-case value into the first rank, the
/// second into the second, the third into the third.
pub proof fn lemma_stage_ranks<T: Clone, A: Clone, P, X, N, D, Z, G, H, K, C>(
    ps: Seq<ProvInput<T, A>>, zero: T, one: T, plus: P, larger: X, smaller: N, over: D, is_zero: Z,
    lv_saturated: G, unbalanced: H, key: K, to_value: C, out: StageOutput<T, A>,
)
    where P: Fn(T, T) -> T, X: Fn(T, T) -> T, N: Fn(T, T) -> T, D: Fn(T, T) -> T,
        Z: Fn(T) -> bool, G: Fn(T) -> bool, H: Fn(T) -> bool, K: Fn(T) -> u64, C: Fn(usize) -> T,
    requires
        exists|pre: Seq<PeaAssVar<T, A>>, mxs: Seq<PeaAssVar<T, A>>, m1: Seq<PeaAssVar<T, A>>, m2: Seq<PeaAssVar<T, A>>,
            k1: Seq<u64>, k2: Seq<u64>, k3: Seq<u64>|
            #[trigger] stage_done(ps, zero, one, plus, larger, smaller, over, is_zero, lv_saturated,
                unbalanced, key, to_value, out, pre, mxs, m1, m2, k1, k2, k3),
    ensures
        ranked_by(out.subs@, VarType::Uc1Val, VarType::Uc1Rank, key, to_value),
        ranked_by(out.subs@, VarType::Uc2Val, VarType::Uc2Rank, key, to_value),
        ranked_by(out.subs@, VarType::Uc3Val, VarType::Uc3Rank, key, to_value),
{
    let (pre, mxs, m1, m2, k1, k2, k3) = choose|pre: Seq<PeaAssVar<T, A>>, mxs: Seq<PeaAssVar<T, A>>,
        m1: Seq<PeaAssVar<T, A>>, m2: Seq<PeaAssVar<T, A>>, k1: Seq<u64>, k2: Seq<u64>, k3: Seq<u64>|
        #[trigger] stage_done(ps, zero, one, plus, larger, smaller, over, is_zero, lv_saturated,
            unbalanced, key, to_value, out, pre, mxs, m1, m2, k1, k2, k3);
    let fin = out.subs@;
    let u1 = var_index(VarType::Uc1Val) as int;
    let u2 = var_index(VarType::Uc2Val) as int;
    let u3 = var_index(VarType::Uc3Val) as int;
    let r1 = var_index(VarType::Uc1Rank) as int;
    let r2 = var_index(VarType::Uc2Rank) as int;
    let r3 = var_index(VarType::Uc3Rank) as int;
    assert forall|k: int| 0 <= k < fin.len() implies {
        &&& (#[trigger] fin[k]).v@[u1].v == pre[k].v@[u1].v
        &&& fin[k].v@[u2].v == m1[k].v@[u2].v
        &&& fin[k].v@[u3].v == m2[k].v@[u3].v
        &&& fin[k].v@[r1].v == m1[k].v@[r1].v
        &&& fin[k].v@[r2].v == m2[k].v@[r2].v
    } by {
        assert(pre[k].v.len() == VAR_COUNT);
        assert(same_labels(pre[k], m1[k]));
        assert(same_labels(m1[k], m2[k]));
        assert(same_labels(m2[k], fin[k]));
    }
    assert forall|k: int| 0 <= k < fin.len() implies key.ensures((fin[k].v@[u1].v,), #[trigger] k1[k]) by {}
    assert forall|k: int| 0 <= k < fin.len() implies
        to_value.ensures((rank_of(k1, k) as usize,), (#[trigger] fin[k]).v@[r1].v) by {
        assert(same_labels(pre[k], m1[k]));
    }
    assert(k1.len() == fin.len());
    assert forall|k: int| 0 <= k < fin.len() implies key.ensures((fin[k].v@[u2].v,), #[trigger] k2[k]) by {}
    assert forall|k: int| 0 <= k < fin.len() implies
        to_value.ensures((rank_of(k2, k) as usize,), (#[trigger] fin[k]).v@[r2].v) by {
        assert(same_labels(m1[k], m2[k]));
    }
    assert(k2.len() == fin.len());
    assert forall|k: int| 0 <= k < fin.len() implies key.ensures((fin[k].v@[u3].v,), #[trigger] k3[k]) by {}
    assert forall|k: int| 0 <= k < fin.len() implies
        to_value.ensures((rank_of(k3, k) as usize,), (#[trigger] fin[k]).v@[r3].v) by {
        assert(same_labels(m2[k], fin[k]));
    }
    assert(k3.len() == fin.len());
}

/// Every state of a province's running record has an entry per variable.
proof fn lemma_province_chain_lengths<T, A, P, X, N>(chain: Seq<PeaAssVar<T, A>>, mids: Seq<PeaAssVar<T, A>>,
    srecs: Seq<PeaAssVar<T, A>>, sins: Seq<SubInput<T, A>>, plus: P, larger: X, smaller: N, j: int)
    where P: Fn(T, T) -> T, X: Fn(T, T) -> T, N: Fn(T, T) -> T,
    requires
        province_chain(chain, mids, srecs, sins, plus, larger, smaller),
        chain[0].v.len() == VAR_COUNT,
        0 <= j <= srecs.len(),
    ensures
        chain[j].v.len() == VAR_COUNT,
    decreases j,
{
    if j > 0 {
        lemma_province_chain_lengths(chain, mids, srecs, sins, plus, larger, smaller, j - 1);
        let i = j - 1;
        assert(area_figures_copied(mids[i], sins[i].trs@[0], chain[i + 1]));
        if sins[i].noted {
            assert(record_added(chain[i], srecs[i], mids[i], plus, larger, smaller));
        }
    }
}

/// A province record holds the car registrations and the GPP of the first
/// transformer record of its last substation.
pub proof fn lemma_province_figures_from_last<T, A, P, X, N, D, Z, G, H>(
    arid: String, pvid: String, srecs: Seq<PeaAssVar<T, A>>, sins: Seq<SubInput<T, A>>,
    zero: T, one: T, plus: P, larger: X, smaller: N, over: D, is_zero: Z,
    lv_saturated: G, unbalanced: H, r: PeaAssVar<T, A>,
)
    where P: Fn(T, T) -> T, X: Fn(T, T) -> T, N: Fn(T, T) -> T, D: Fn(T, T) -> T,
        Z: Fn(T) -> bool, G: Fn(T) -> bool, H: Fn(T) -> bool,
    requires
        is_province_record(arid, pvid, srecs, sins, zero, one, plus, larger, smaller, over, is_zero,
            lv_saturated, unbalanced, r),
        srecs.len() >= 1,
    ensures
        val(r.v@, VarType::NewCarReg) == val(sins[srecs.len() - 1].trs@[0].v@, VarType::NewCarReg),
        val(r.v@, VarType::Gpp) == val(sins[srecs.len() - 1].trs@[0].v@, VarType::Gpp),
{
    let (chain, mids) = choose|chain: Seq<PeaAssVar<T, A>>, mids: Seq<PeaAssVar<T, A>>| {
        &&& #[trigger] province_chain(chain, mids, srecs, sins, plus, larger, smaller)
        &&& is_fresh(chain[0], zero)
        &&& chain[0].arid == arid
        &&& chain[0].pvid == pvid
        &&& chain[0].sbid@.len() == 0
        &&& chain[0].aoj@.len() == 0
        &&& chain[0].aojv.len() == 0
        &&& same_labels(chain[srecs.len() as int], r)
        &&& r.set == chain[srecs.len() as int].set
        &&& r.res == chain[srecs.len() as int].res
        &&& r.vy == chain[srecs.len() as int].vy
        &&& recalculated(chain[srecs.len() as int].v@, r.v@, over, is_zero, one, zero, lv_saturated, unbalanced)
    };
    let n = srecs.len() as int;
    lemma_province_chain_lengths(chain, mids, srecs, sins, plus, larger, smaller, n);
    lemma_recalc_figures(chain[n].v@, r.v@, over, is_zero, one, zero, lv_saturated, unbalanced);
    let i = n - 1;
    assert(area_figures_copied(mids[i], sins[i].trs@[0], chain[i + 1]));
    if sins[i].noted {
        assert(record_added(chain[i], srecs[i], mids[i], plus, larger, smaller));
    }
    lemma_province_chain_lengths(chain, mids, srecs, sins, plus, larger, smaller, i);
}

/// Every state of a substation's running record keeps the rule of entry
/// `i` that the fresh record gave it.
proof fn lemma_added_chain_rules<T, A, P, X, N>(chain: Seq<PeaAssVar<T, A>>, trs: Seq<PeaAssVar<T, A>>,
    plus: P, larger: X, smaller: N, i: int, j: int)
    where P: Fn(T, T) -> T, X: Fn(T, T) -> T, N: Fn(T, T) -> T,
    requires
        added_chain(chain, trs, plus, larger, smaller),
        chain[0].v.len() == VAR_COUNT,
        0 <= i < VAR_COUNT,
        0 <= j <= trs.len(),
    ensures
        chain[j].v@[i].s == chain[0].v@[i].s,
    decreases j,
{
    if j > 0 {
        lemma_added_chain_rules(chain, trs, plus, larger, smaller, i, j - 1);
        lemma_added_chain_lengths(chain, trs, plus, larger, smaller, j - 1);
        let k = j - 1;
        assert(record_added(chain[k], trs[k], chain[k + 1], plus, larger, smaller));
    }
}

/// Values that go from one state to the next by `f` with the records'
/// values form a fold of those values.
proof fn lemma_states_fold<T, A, F: Fn(T, T) -> T>(chain: Seq<PeaAssVar<T, A>>, trs: Seq<PeaAssVar<T, A>>, i: int, f: F)
    requires
        chain.len() == trs.len() + 1,
        forall|k: int| 0 <= k < trs.len() ==> f.ensures((chain[k].v@[i].v, trs[k].v@[i].v), #[trigger] chain[k + 1].v@[i].v),
    ensures
        is_fold(f, chain[0].v@[i].v, column(trs, i), chain[trs.len() as int].v@[i].v),
{
    let acc = Seq::new(chain.len(), |j: int| chain[j].v@[i].v);
    let col = column(trs, i);
    assert forall|k: int| 0 <= k < col.len() implies f.ensures((acc[k], col[k]), #[trigger] acc[k + 1]) by {
        assert(f.ensures((chain[k].v@[i].v, trs[k].v@[i].v), chain[k + 1].v@[i].v));
    }
    assert(crate::ops::fold_chain(f, chain[0].v@[i].v, col, acc));
}

/// Outside the substation-wide figures, the derived figures and the note
/// flag, a substation record's value of variable `t` is the fold, from
/// `zero`, of its transformer records' values of `t`: by `larger` for the
/// peak powers of substations and feeders, the feeders' peak differences
/// and the unbalance rate, by `plus` for every other variable.
pub proof fn lemma_substation_sums<T, A: Clone, P, X, N, D, Z, G, H>(
    arid: String, pvid: String, trs: Seq<PeaAssVar<T, A>>, noted: bool, projs: Option<Seq<Vec<T>>>,
    aojv: Seq<A>, zero: T, one: T, plus: P, larger: X, smaller: N, over: D, is_zero: Z,
    lv_saturated: G, unbalanced: H, r: PeaAssVar<T, A>, t: VarType,
)
    where P: Fn(T, T) -> T, X: Fn(T, T) -> T, N: Fn(T, T) -> T, D: Fn(T, T) -> T,
        Z: Fn(T) -> bool, G: Fn(T) -> bool, H: Fn(T) -> bool,
    requires
        is_substation_record(arid, pvid, trs, noted, projs, aojv, zero, one, plus, larger, smaller, over, is_zero,
            lv_saturated, unbalanced, r),
        forall|j: int| 0 <= j < trs.len() ==> (#[trigger] trs[j]).v.len() == VAR_COUNT,
        !crate::recalc::is_sub_figure(var_index(t) as int),
        !crate::recalc::is_recalc_target(var_index(t) as int),
        var_index(t) != note_index(),
    ensures
        (t == VarType::MaxPosPowSub || t == VarType::MaxNegPowSub || t == VarType::MaxPosPowFeeder
            || t == VarType::MaxNegPowFeeder || t == VarType::MaxPosDiffFeeder || t == VarType::MaxNegDiffFeeder
            || t == VarType::UnbalPowRate) ==> is_fold(larger, zero, column(trs, var_index(t) as int), val(r.v@, t)),
        !(t == VarType::MaxPosPowSub || t == VarType::MaxNegPowSub || t == VarType::MaxPosPowFeeder
            || t == VarType::MaxNegPowFeeder || t == VarType::MaxPosDiffFeeder || t == VarType::MaxNegDiffFeeder
            || t == VarType::UnbalPowRate) ==> is_fold(plus, zero, column(trs, var_index(t) as int), val(r.v@, t)),
{
    let (chain, c, d) = choose|chain: Seq<PeaAssVar<T, A>>, c: Seq<AssVar<T>>, d: Seq<AssVar<T>>| {
        &&& #[trigger] added_chain(chain, trs, plus, larger, smaller)
        &&& is_fresh(chain[0], zero)
        &&& #[trigger] sub_figures_copied(chain[trs.len() as int].v@, trs[0].v@, c)
        &&& #[trigger] recalculated(c, d, over, is_zero, one, zero, lv_saturated, unbalanced)
        &&& r.v@ == d.update(note_index(), AssVar { v: if noted { one } else { zero }, ..d[note_index()] })
        &&& match projs {
            Some(p) => projections_appended(chain[trs.len() as int].vy@, p, r.vy@),
            None => r.vy@ == chain[trs.len() as int].vy@,
        }
    };
    let i = var_index(t) as int;
    let n = trs.len() as int;
    crate::vartype::lemma_var_index_inverse(t);
    crate::vartype::lemma_combination_rules(t);
    lemma_added_chain_lengths(chain, trs, plus, larger, smaller, n);
    assert(chain[0].v@[i].s == default_sum_type(t));
    assert forall|k: int| 0 <= k < n implies combined(default_sum_type(t), chain[k].v@[i].v, trs[k].v@[i].v,
        #[trigger] chain[k + 1].v@[i].v, plus, larger, smaller) by {
        lemma_added_chain_rules(chain, trs, plus, larger, smaller, i, k);
        lemma_added_chain_lengths(chain, trs, plus, larger, smaller, k);
        assert(record_added(chain[k], trs[k], chain[k + 1], plus, larger, smaller));
        assert(trs[k].v.len() == VAR_COUNT);
    }
    assert(c.len() == VAR_COUNT);
    assert(d.len() == VAR_COUNT);
    assert(r.v@[i] == d[i]);
    assert(d[i] == c[i]);
    assert(c[i] == chain[n].v@[i]);
    if default_sum_type(t) == crate::vartype::SumType::Max {
        lemma_states_fold(chain, trs, i, larger);
    } else {
        lemma_states_fold(chain, trs, i, plus);
    }
}

/// A normalised copy holds, at each position that the maximum has, the
/// record's value divided by the maximum's value there (a zero maximum
/// counting as `one`), and the record's entry elsewhere; its labels,
/// counters and projections are the record's.
pub proof fn lemma_normalised_values<T: Clone, A: Clone, D: Fn(T, T) -> T, Z: Fn(T) -> bool>(
    a: PeaAssVar<T, A>, m: PeaAssVar<T, A>, r: PeaAssVar<T, A>, over: D, is_zero: Z, one: T,
)
    requires
        normalised_copy(a, m, r, over, is_zero, one),
    ensures
        r.v.len() == a.v.len(),
        forall|i: int| 0 <= i < a.v.len() && i < m.v.len() ==>
            crate::recalc::ratio(a.v@[i].v, m.v@[i].v, #[trigger] r.v@[i].v, over, is_zero, one),
        forall|i: int| 0 <= i < a.v.len() ==> (#[trigger] r.v@[i]).t == a.v@[i].t && r.v@[i].s == a.v@[i].s,
        forall|i: int| m.v.len() <= i < a.v.len() ==> #[trigger] r.v@[i] == a.v@[i],
        r.sbid == a.sbid && r.set == a.set && r.res == a.res,
        r.vy.len() == a.vy.len(),
        forall|i: int| 0 <= i < a.vy.len() ==> (#[trigger] r.vy[i])@ == a.vy[i]@,
{
    assert forall|i: int| 0 <= i < a.v.len() && i < m.v.len() implies
        crate::recalc::ratio(a.v@[i].v, m.v@[i].v, #[trigger] r.v@[i].v, over, is_zero, one) by {
        assert(crate::assvar::normalized(a.v@[i].v, m.v@[i].v, r.v@[i].v, over, is_zero, one));
    }
}

/// The values at position `i` of those among the first `n` records
/// `srecs` whose substations (`sins`) are noted, in order.
pub open spec fn noted_values<T, A>(srecs: Seq<PeaAssVar<T, A>>, sins: Seq<SubInput<T, A>>, i: int, n: int) -> Seq<T>
    decreases n,
{
    if n <= 0 {
        Seq::empty()
    } else if sins[n - 1].noted {
        noted_values(srecs, sins, i, n - 1).push(srecs[n - 1].v@[i].v)
    } else {
        noted_values(srecs, sins, i, n - 1)
    }
}

/// A fold extended by one more value.
proof fn lemma_fold_push<T, F: Fn(T, T) -> T>(f: F, init: T, s: Seq<T>, x: T, y: T, z: T)
    requires
        is_fold(f, init, s, x),
        f.ensures((x, y), z),
    ensures
        is_fold(f, init, s.push(y), z),
{
    let acc = choose|acc: Seq<T>| #[trigger] crate::ops::fold_chain(f, init, s, acc) && x == acc[s.len() as int];
    let acc2 = acc.push(z);
    let s2 = s.push(y);
    assert forall|k: int| 0 <= k < s2.len() implies f.ensures((acc2[k], s2[k]), #[trigger] acc2[k + 1]) by {
        if k < s.len() {
            assert(acc2[k] == acc[k] && acc2[k + 1] == acc[k + 1] && s2[k] == s[k]);
        }
    }
    assert(crate::ops::fold_chain(f, init, s2, acc2));
}

/// One step of a province's running record at a position other than the
/// car registrations and the GPP: a noted substation's value is combined in
/// by the entry's rule, another leaves the value; the rule stays.
proof fn lemma_province_step<T, A, P, X, N>(chain: Seq<PeaAssVar<T, A>>, mids: Seq<PeaAssVar<T, A>>,
    srecs: Seq<PeaAssVar<T, A>>, sins: Seq<SubInput<T, A>>, plus: P, larger: X, smaller: N, i: int, j: int)
    where P: Fn(T, T) -> T, X: Fn(T, T) -> T, N: Fn(T, T) -> T,
    requires
        province_chain(chain, mids, srecs, sins, plus, larger, smaller),
        chain[0].v.len() == VAR_COUNT,
        forall|k: int| 0 <= k < srecs.len() ==> (#[trigger] srecs[k]).v.len() == VAR_COUNT,
        0 <= i < VAR_COUNT,
        i != var_index(VarType::NewCarReg),
        i != var_index(VarType::Gpp),
        0 <= j < srecs.len(),
    ensures
        chain[j + 1].v@[i].s == chain[j].v@[i].s,
        sins[j].noted ==> combined(chain[j].v@[i].s, chain[j].v@[i].v, srecs[j].v@[i].v, chain[j + 1].v@[i].v,
            plus, larger, smaller),
        !sins[j].noted ==> chain[j + 1].v@[i].v == chain[j].v@[i].v,
{
    lemma_province_chain_lengths(chain, mids, srecs, sins, plus, larger, smaller, j);
    assert(area_figures_copied(mids[j], sins[j].trs@[0], chain[j + 1]));
    if sins[j].noted {
        assert(record_added(chain[j], srecs[j], mids[j], plus, larger, smaller));
        assert(srecs[j].v.len() == VAR_COUNT);
    }
    assert(mids[j].v.len() == VAR_COUNT);
    assert(chain[j + 1].v@[i] == mids[j].v@[i]);
}

/// The rule of entry `i` of a province's running record never changes.
proof fn lemma_province_rules<T, A, P, X, N>(chain: Seq<PeaAssVar<T, A>>, mids: Seq<PeaAssVar<T, A>>,
    srecs: Seq<PeaAssVar<T, A>>, sins: Seq<SubInput<T, A>>, plus: P, larger: X, smaller: N, i: int, j: int)
    where P: Fn(T, T) -> T, X: Fn(T, T) -> T, N: Fn(T, T) -> T,
    requires
        province_chain(chain, mids, srecs, sins, plus, larger, smaller),
        chain[0].v.len() == VAR_COUNT,
        forall|k: int| 0 <= k < srecs.len() ==> (#[trigger] srecs[k]).v.len() == VAR_COUNT,
        0 <= i < VAR_COUNT,
        i != var_index(VarType::NewCarReg),
        i != var_index(VarType::Gpp),
        0 <= j <= srecs.len(),
    ensures
        chain[j].v@[i].s == chain[0].v@[i].s,
    decreases j,
{
    if j > 0 {
        lemma_province_rules(chain, mids, srecs, sins, plus, larger, smaller, i, j - 1);
        lemma_province_step(chain, mids, srecs, sins, plus, larger, smaller, i, j - 1);
    }
}

/// Values that go from one state to the next by `f` with the values of the
/// noted substations, and stay otherwise, are a fold of the noted values.
proof fn lemma_noted_fold<T, A, F: Fn(T, T) -> T>(chain: Seq<PeaAssVar<T, A>>, srecs: Seq<PeaAssVar<T, A>>,
    sins: Seq<SubInput<T, A>>, i: int, f: F, j: int)
    requires
        chain.len() == srecs.len() + 1,
        0 <= j <= srecs.len(),
        forall|k: int| 0 <= k < srecs.len() ==> (sins[k].noted ==>
            f.ensures((chain[k].v@[i].v, srecs[k].v@[i].v), #[trigger] chain[k + 1].v@[i].v)),
        forall|k: int| 0 <= k < srecs.len() ==> (!sins[k].noted ==> #[trigger] chain[k + 1].v@[i].v == chain[k].v@[i].v),
    ensures
        is_fold(f, chain[0].v@[i].v, noted_values(srecs, sins, i, j), chain[j].v@[i].v),
    decreases j,
{
    if j == 0 {
        let acc = seq![chain[0].v@[i].v];
        assert(crate::ops::fold_chain(f, chain[0].v@[i].v, noted_values(srecs, sins, i, 0), acc));
    } else {
        let k = j - 1;
        lemma_noted_fold(chain, srecs, sins, i, f, k);
        if sins[k].noted {
            assert(f.ensures((chain[k].v@[i].v, srecs[k].v@[i].v), chain[k + 1].v@[i].v));
            lemma_fold_push(f, chain[0].v@[i].v, noted_values(srecs, sins, i, k), chain[k].v@[i].v,
                srecs[k].v@[i].v, chain[k + 1].v@[i].v);
        } else {
            assert(chain[k + 1].v@[i].v == chain[k].v@[i].v);
        }
    }
}

/// Outside the car registrations, the GPP and the derived figures, a
/// province record's value of variable `t` is the fold, from `zero`, of the
/// values of `t` of its noted substations' records, in order: by `larger`
/// for the peak powers of substations and feeders, the feeders' peak
/// differences and the unbalance rate, by `plus` for every other variable.
/// The records of substations that are not noted take no part.
pub proof fn lemma_province_sums<T, A, P, X, N, D, Z, G, H>(
    arid: String, pvid: String, srecs: Seq<PeaAssVar<T, A>>, sins: Seq<SubInput<T, A>>,
    zero: T, one: T, plus: P, larger: X, smaller: N, over: D, is_zero: Z,
    lv_saturated: G, unbalanced: H, r: PeaAssVar<T, A>, t: VarType,
)
    where P: Fn(T, T) -> T, X: Fn(T, T) -> T, N: Fn(T, T) -> T, D: Fn(T, T) -> T,
        Z: Fn(T) -> bool, G: Fn(T) -> bool, H: Fn(T) -> bool,
    requires
        is_province_record(arid, pvid, srecs, sins, zero, one, plus, larger, smaller, over, is_zero,
            lv_saturated, unbalanced, r),
        forall|k: int| 0 <= k < srecs.len() ==> (#[trigger] srecs[k]).v.len() == VAR_COUNT,
        t != VarType::NewCarReg,
        t != VarType::Gpp,
        !crate::recalc::is_recalc_target(var_index(t) as int),
    ensures
        (t == VarType::MaxPosPowSub || t == VarType::MaxNegPowSub || t == VarType::MaxPosPowFeeder
            || t == VarType::MaxNegPowFeeder || t == VarType::MaxPosDiffFeeder || t == VarType::MaxNegDiffFeeder
            || t == VarType::UnbalPowRate) ==> is_fold(larger, zero,
            noted_values(srecs, sins, var_index(t) as int, srecs.len() as int), val(r.v@, t)),
        !(t == VarType::MaxPosPowSub || t == VarType::MaxNegPowSub || t == VarType::MaxPosPowFeeder
            || t == VarType::MaxNegPowFeeder || t == VarType::MaxPosDiffFeeder || t == VarType::MaxNegDiffFeeder
            || t == VarType::UnbalPowRate) ==> is_fold(plus, zero,
            noted_values(srecs, sins, var_index(t) as int, srecs.len() as int), val(r.v@, t)),
{
    let (chain, mids) = choose|chain: Seq<PeaAssVar<T, A>>, mids: Seq<PeaAssVar<T, A>>| {
        &&& #[trigger] province_chain(chain, mids, srecs, sins, plus, larger, smaller)
        &&& is_fresh(chain[0], zero)
        &&& chain[0].arid == arid
        &&& chain[0].pvid == pvid
        &&& chain[0].sbid@.len() == 0
        &&& chain[0].aoj@.len() == 0
        &&& chain[0].aojv.len() == 0
        &&& same_labels(chain[srecs.len() as int], r)
        &&& r.set == chain[srecs.len() as int].set
        &&& r.res == chain[srecs.len() as int].res
        &&& r.vy == chain[srecs.len() as int].vy
        &&& recalculated(chain[srecs.len() as int].v@, r.v@, over, is_zero, one, zero, lv_saturated, unbalanced)
    };
    let i = var_index(t) as int;
    let n = srecs.len() as int;
    crate::vartype::lemma_var_index_inverse(t);
    crate::vartype::lemma_combination_rules(t);
    crate::vartype::lemma_var_index_inverse(VarType::NewCarReg);
    crate::vartype::lemma_var_index_inverse(VarType::Gpp);
    assert(i != var_index(VarType::NewCarReg));
    assert(i != var_index(VarType::Gpp));
    assert(chain[0].v@[i].s == default_sum_type(t));
    assert forall|k: int| 0 <= k < n implies (sins[k].noted ==> combined(default_sum_type(t), chain[k].v@[i].v,
        srecs[k].v@[i].v, #[trigger] chain[k + 1].v@[i].v, plus, larger, smaller))
        && (!sins[k].noted ==> chain[k + 1].v@[i].v == chain[k].v@[i].v) by {
        lemma_province_rules(chain, mids, srecs, sins, plus, larger, smaller, i, k);
        lemma_province_step(chain, mids, srecs, sins, plus, larger, smaller, i, k);
    }
    lemma_province_chain_lengths(chain, mids, srecs, sins, plus, larger, smaller, n);
    assert(r.v@[i] == chain[n].v@[i]);
    if default_sum_type(t) == crate::vartype::SumType::Max {
        lemma_noted_fold(chain, srecs, sins, i, larger, n);
    } else {
        lemma_noted_fold(chain, srecs, sins, i, plus, n);
    }
}

/// A substation record's note flag is `one` where the substation is noted
/// and `zero` where not; its office list is the distinct office names of
/// its transformer records, each where it first occurs, joined by commas;
/// it is labelled with the area and province given and the substation of
/// its first transformer record.
pub proof fn lemma_substation_note_and_offices<T, A: Clone, P, X, N, D, Z, G, H>(
    arid: String, pvid: String, trs: Seq<PeaAssVar<T, A>>, noted: bool, projs: Option<Seq<Vec<T>>>,
    aojv: Seq<A>, zero: T, one: T, plus: P, larger: X, smaller: N, over: D, is_zero: Z,
    lv_saturated: G, unbalanced: H, r: PeaAssVar<T, A>,
)
    where P: Fn(T, T) -> T, X: Fn(T, T) -> T, N: Fn(T, T) -> T, D: Fn(T, T) -> T,
        Z: Fn(T) -> bool, G: Fn(T) -> bool, H: Fn(T) -> bool,
    requires
        is_substation_record(arid, pvid, trs, noted, projs, aojv, zero, one, plus, larger, smaller, over, is_zero,
            lv_saturated, unbalanced, r),
    ensures
        val(r.v@, VarType::TakeNote) == (if noted { one } else { zero }),
        r.aoj@ == comma_join(distinct_firsts(Seq::new(trs.len(), |j: int| trs[j].aoj@))),
        r.arid == arid && r.pvid == pvid && r.sbid == trs[0].sbid,
{
    let (chain, c, d) = choose|chain: Seq<PeaAssVar<T, A>>, c: Seq<AssVar<T>>, d: Seq<AssVar<T>>| {
        &&& #[trigger] added_chain(chain, trs, plus, larger, smaller)
        &&& is_fresh(chain[0], zero)
        &&& #[trigger] sub_figures_copied(chain[trs.len() as int].v@, trs[0].v@, c)
        &&& #[trigger] recalculated(c, d, over, is_zero, one, zero, lv_saturated, unbalanced)
        &&& r.v@ == d.update(note_index(), AssVar { v: if noted { one } else { zero }, ..d[note_index()] })
        &&& match projs {
            Some(p) => projections_appended(chain[trs.len() as int].vy@, p, r.vy@),
            None => r.vy@ == chain[trs.len() as int].vy@,
        }
    };
    lemma_added_chain_lengths(chain, trs, plus, larger, smaller, trs.len() as int);
    lemma_note_set(chain[trs.len() as int].v@, trs[0].v@, c, d, r.v@, noted, over, is_zero, one, zero,
        lv_saturated, unbalanced);
    assert(aoj_texts(trs) =~= Seq::new(trs.len(), |j: int| trs[j].aoj@));
}

/// The note flag set last stays in the record.
proof fn lemma_note_set<T, D, Z, G, H>(v: Seq<AssVar<T>>, o: Seq<AssVar<T>>, c: Seq<AssVar<T>>,
    d: Seq<AssVar<T>>, rv: Seq<AssVar<T>>, noted: bool, over: D, is_zero: Z, one: T, zero: T, lv_saturated: G,
    unbalanced: H)
    where D: Fn(T, T) -> T, Z: Fn(T) -> bool, G: Fn(T) -> bool, H: Fn(T) -> bool,
    requires
        sub_figures_copied(v, o, c),
        recalculated(c, d, over, is_zero, one, zero, lv_saturated, unbalanced),
        rv == d.update(note_index(), AssVar { v: if noted { one } else { zero }, ..d[note_index()] }),
        v.len() == VAR_COUNT,
    ensures
        val(rv, VarType::TakeNote) == (if noted { one } else { zero }),
{
    assert(c.len() == VAR_COUNT);
    assert(d.len() == VAR_COUNT);
}

/// In the outcome of a stage, each province record holds the car
/// registrations and the GPP of the first transformer record of the
/// province's last substation.
pub proof fn lemma_stage_province_figures<T: Clone, A: Clone, P, X, N, D, Z, G, H, K, C>(
    ps: Seq<ProvInput<T, A>>, zero: T, one: T, plus: P, larger: X, smaller: N, over: D, is_zero: Z,
    lv_saturated: G, unbalanced: H, key: K, to_value: C, out: StageOutput<T, A>, p: int,
)
    where P: Fn(T, T) -> T, X: Fn(T, T) -> T, N: Fn(T, T) -> T, D: Fn(T, T) -> T,
        Z: Fn(T) -> bool, G: Fn(T) -> bool, H: Fn(T) -> bool, K: Fn(T) -> u64, C: Fn(usize) -> T,
    requires
        exists|pre: Seq<PeaAssVar<T, A>>, mxs: Seq<PeaAssVar<T, A>>, m1: Seq<PeaAssVar<T, A>>, m2: Seq<PeaAssVar<T, A>>,
            k1: Seq<u64>, k2: Seq<u64>, k3: Seq<u64>|
            #[trigger] stage_done(ps, zero, one, plus, larger, smaller, over, is_zero, lv_saturated,
                unbalanced, key, to_value, out, pre, mxs, m1, m2, k1, k2, k3),
        0 <= p < ps.len(),
        ps[p].subs.len() >= 1,
    ensures
        val(out.provs@[p].v@, VarType::NewCarReg) == val(ps[p].subs@[ps[p].subs.len() - 1].trs@[0].v@, VarType::NewCarReg),
        val(out.provs@[p].v@, VarType::Gpp) == val(ps[p].subs@[ps[p].subs.len() - 1].trs@[0].v@, VarType::Gpp),
{
    let (pre, mxs, m1, m2, k1, k2, k3) = choose|pre: Seq<PeaAssVar<T, A>>, mxs: Seq<PeaAssVar<T, A>>,
        m1: Seq<PeaAssVar<T, A>>, m2: Seq<PeaAssVar<T, A>>, k1: Seq<u64>, k2: Seq<u64>, k3: Seq<u64>|
        #[trigger] stage_done(ps, zero, one, plus, larger, smaller, over, is_zero, lv_saturated,
            unbalanced, key, to_value, out, pre, mxs, m1, m2, k1, k2, k3);
    lemma_sub_offset_mono(ps, p, p + 1);
    lemma_sub_offset_mono(ps, p + 1, ps.len() as int);
    let srecs = pre.subrange(sub_offset(ps, p), sub_offset(ps, p + 1));
    assert(is_province_record(ps[p].arid, ps[p].pvid, srecs, ps[p].subs@, zero, one, plus, larger, smaller,
        over, is_zero, lv_saturated, unbalanced, out.provs@[p]));
    assert(srecs.len() == ps[p].subs.len());
    lemma_province_figures_from_last(ps[p].arid, ps[p].pvid, srecs, ps[p].subs@, zero, one, plus, larger, smaller,
        over, is_zero, lv_saturated, unbalanced, out.provs@[p]);
}

} // verus!
