//! The derived variables of a substation or province record, recomputed
//! after its transformer records have been added up.

use vstd::prelude::*;
use crate::vartype::{var_index, VarType, VAR_COUNT};
use crate::ops::{flag, flagged, total1, total2, z2o};
use crate::assvar::{normalized, AssVar};
use crate::record::{same_labels, PeaAssVar};

verus! {

/// The positions that `recalc` writes.
pub open spec fn is_recalc_target(i: int) -> bool {
    ||| i == var_index(VarType::LvPowSatTr)
    ||| i == var_index(VarType::CntLvPowSatTr)
    ||| i == var_index(VarType::ChgStnCap)
    ||| i == var_index(VarType::ChgStnSell)
    ||| i == var_index(VarType::MvPowSatTr)
    ||| i == var_index(VarType::MvVspp)
    ||| i == var_index(VarType::HvSpp)
    ||| i == var_index(VarType::SmallSell)
    ||| i == var_index(VarType::LargeSell)
    ||| i == var_index(VarType::UnbalPow)
    ||| i == var_index(VarType::CntUnbalPow)
}

/// The value of variable `t` in `v`.
pub open spec fn val<T>(v: Seq<AssVar<T>>, t: VarType) -> T {
    v[var_index(t) as int].v
}

/// `nv` is `v` with its derived variables recomputed: the low-voltage
/// saturation (peak power over capacity) and its flag, the medium-voltage
/// saturation (substation peak over substation capacity), the unbalance
/// flag (unbalanced power over capacity), and the substation figures taken
/// from their transformer sums. A zero divisor counts as `one`.
pub open spec fn recalculated<T, D, Z, G, H>(v: Seq<AssVar<T>>, nv: Seq<AssVar<T>>, over: D, is_zero: Z, one: T, zero: T, lv_saturated: G, unbalanced: H) -> bool
    where D: Fn(T, T) -> T, Z: Fn(T) -> bool, G: Fn(T) -> bool, H: Fn(T) -> bool,
{
    &&& nv.len() == v.len()
    &&& forall|i: int| 0 <= i < v.len() ==> (#[trigger] nv[i]).t == v[i].t && nv[i].s == v[i].s
    &&& forall|i: int| 0 <= i < v.len() && !is_recalc_target(i) ==> #[trigger] nv[i] == v[i]
    &&& normalized(val(v, VarType::PkPowTr), val(v, VarType::PwCapTr), val(nv, VarType::LvPowSatTr), over, is_zero, one)
    &&& flagged(lv_saturated, val(nv, VarType::LvPowSatTr), one, zero, val(nv, VarType::CntLvPowSatTr))
    &&& val(nv, VarType::ChgStnCap) == val(v, VarType::ChgStnCapTr)
    &&& val(nv, VarType::ChgStnSell) == val(v, VarType::ChgStnSellTr)
    &&& normalized(val(v, VarType::MaxPosPowSub), val(v, VarType::SubPowCap), val(nv, VarType::MvPowSatTr), over, is_zero, one)
    &&& val(nv, VarType::MvVspp) == val(v, VarType::VsppMv)
    &&& val(nv, VarType::HvSpp) == val(v, VarType::SppHv)
    &&& val(nv, VarType::SmallSell) == val(v, VarType::SmallSellTr)
    &&& val(nv, VarType::LargeSell) == val(v, VarType::LargeSellTr)
    &&& val(nv, VarType::UnbalPow) == val(v, VarType::UnbalPowTr)
    &&& exists|u: T| #[trigger] normalized(val(v, VarType::UnbalPowTr), val(v, VarType::PwCapTr), u, over, is_zero, one)
        && flagged(unbalanced, u, one, zero, val(nv, VarType::CntUnbalPow))
}


/// The variables that a substation record takes from its first transformer
/// record rather than from the sum of them all.
pub open spec fn is_sub_figure(i: int) -> bool {
    ||| i == var_index(VarType::NewCarReg)
    ||| i == var_index(VarType::Gpp)
    ||| i == var_index(VarType::MaxPosPowSub)
    ||| i == var_index(VarType::MaxNegPowSub)
    ||| i == var_index(VarType::VsppMv)
    ||| i == var_index(VarType::SppHv)
    ||| i == var_index(VarType::BigLotMv)
    ||| i == var_index(VarType::BigLotHv)
    ||| i == var_index(VarType::SubPowCap)
    ||| i == var_index(VarType::SolarEnergy)
}

/// `nv` is `v` with the substation-wide figures taken from `o`.
pub open spec fn sub_figures_copied<T>(v: Seq<AssVar<T>>, o: Seq<AssVar<T>>, nv: Seq<AssVar<T>>) -> bool {
    &&& nv.len() == v.len()
    &&& forall|i: int| 0 <= i < v.len() ==> (#[trigger] nv[i]).t == v[i].t && nv[i].s == v[i].s
    &&& forall|i: int| 0 <= i < v.len() && is_sub_figure(i) ==> #[trigger] nv[i].v == o[i].v
    &&& forall|i: int| 0 <= i < v.len() && !is_sub_figure(i) ==> #[trigger] nv[i] == v[i]
}

impl<T: Copy, A> PeaAssVar<T, A> {
    /// Sets the value of variable `t`.
    fn put(&mut self, t: VarType, x: T)
        requires
            var_index(t) < old(self).v.len(),
        ensures
            same_labels(*old(self), *final(self)),
            final(self).set == old(self).set,
            final(self).res == old(self).res,
            final(self).vy == old(self).vy,
            final(self).v@ == old(self).v@.update(var_index(t) as int, AssVar { v: x, ..old(self).v@[var_index(t) as int] }),
    {
        let i: usize = t.tousz();
        let e = self.v[i];
        self.v.set(i, AssVar { t: e.t, s: e.s, v: x });
    }

    /// The value of variable `t`.
    fn get(&self, t: VarType) -> (x: T)
        requires
            var_index(t) < self.v.len(),
        ensures
            x == val(self.v@, t),
    {
        self.v[t.tousz()].v
    }

    /// Takes the substation-wide figures (car registrations, GPP, the
    /// substation's peak powers and capacity, its power producers, large
    /// customers and solar energy) from `o`, the first transformer record.
    pub fn copy_sub_figures(&mut self, o: &PeaAssVar<T, A>)
        requires
            var_index(VarType::SolarEnergy) < old(self).v.len(),
            var_index(VarType::SolarEnergy) < o.v.len(),
        ensures
            same_labels(*old(self), *final(self)),
            final(self).set == old(self).set,
            final(self).res == old(self).res,
            final(self).vy == old(self).vy,
            sub_figures_copied(old(self).v@, o.v@, final(self).v@),
    {
        self.copy(o, VarType::NewCarReg);
        self.copy(o, VarType::Gpp);
        self.copy(o, VarType::MaxPosPowSub);
        self.copy(o, VarType::MaxNegPowSub);
        self.copy(o, VarType::VsppMv);
        self.copy(o, VarType::SppHv);
        self.copy(o, VarType::BigLotMv);
        self.copy(o, VarType::BigLotHv);
        self.copy(o, VarType::SubPowCap);
        self.copy(o, VarType::SolarEnergy);
    }

    /// Recomputes the derived variables from the added-up ones: the
    /// saturations are ratios whose zero divisors count as `one`; a
    /// low-voltage saturation that `lv_saturated` accepts, and an unbalance
    /// ratio that `unbalanced` accepts, set their flags to `one`, else to
    /// `zero`.
    pub fn recalc<D, Z, G, H>(&mut self, over: &D, is_zero: &Z, one: T, zero: T, lv_saturated: &G, unbalanced: &H)
        where D: Fn(T, T) -> T, Z: Fn(T) -> bool, G: Fn(T) -> bool, H: Fn(T) -> bool,
        requires
            var_index(VarType::CntUnbalPow) < old(self).v.len(),
            total2(*over),
            total1(*is_zero),
            total1(*lv_saturated),
            total1(*unbalanced),
        ensures
            same_labels(*old(self), *final(self)),
            final(self).set == old(self).set,
            final(self).res == old(self).res,
            final(self).vy == old(self).vy,
            recalculated(old(self).v@, final(self).v@, *over, *is_zero, one, zero, *lv_saturated, *unbalanced),
    {
        let pk = self.get(VarType::PkPowTr);
        let cap = self.get(VarType::PwCapTr);
        let mx = self.get(VarType::MaxPosPowSub);
        let scap = self.get(VarType::SubPowCap);
        let ub = self.get(VarType::UnbalPowTr);

        let cap1 = z2o(cap, is_zero, one);
        let lv = over(pk, cap1);
        assert(normalized(pk, cap, lv, *over, *is_zero, one));
        let lv_flag = flag(lv, lv_saturated, one, zero);
        let scap1 = z2o(scap, is_zero, one);
        let mv = over(mx, scap1);
        assert(normalized(mx, scap, mv, *over, *is_zero, one));
        let u = over(ub, cap1);
        assert(normalized(ub, cap, u, *over, *is_zero, one));
        let ub_flag = flag(u, unbalanced, one, zero);

        let chg_cap = self.get(VarType::ChgStnCapTr);
        let chg_sell = self.get(VarType::ChgStnSellTr);
        let vspp = self.get(VarType::VsppMv);
        let spp = self.get(VarType::SppHv);
        let small = self.get(VarType::SmallSellTr);
        let large = self.get(VarType::LargeSellTr);

        self.put(VarType::LvPowSatTr, lv);
        self.put(VarType::CntLvPowSatTr, lv_flag);
        self.put(VarType::ChgStnCap, chg_cap);
        self.put(VarType::ChgStnSell, chg_sell);
        self.put(VarType::MvPowSatTr, mv);
        self.put(VarType::MvVspp, vspp);
        self.put(VarType::HvSpp, spp);
        self.put(VarType::SmallSell, small);
        self.put(VarType::LargeSell, large);
        self.put(VarType::UnbalPow, ub);
        self.put(VarType::CntUnbalPow, ub_flag);
    }
}


/// Taking the substation-wide figures from `o` sets exactly the car
/// registrations, GPP, the substation's peak powers, its power producers
/// (VSPP on MV, SPP on HV), its large customers on MV and HV, its capacity
/// and its solar energy to those of `o`, and keeps every other entry.
pub proof fn lemma_sub_figures_from_first<T>(v: Seq<AssVar<T>>, o: Seq<AssVar<T>>, nv: Seq<AssVar<T>>)
    requires
        sub_figures_copied(v, o, nv),
        v.len() == VAR_COUNT,
    ensures
        nv.len() == v.len(),
        val(nv, VarType::NewCarReg) == val(o, VarType::NewCarReg),
        val(nv, VarType::Gpp) == val(o, VarType::Gpp),
        val(nv, VarType::MaxPosPowSub) == val(o, VarType::MaxPosPowSub),
        val(nv, VarType::MaxNegPowSub) == val(o, VarType::MaxNegPowSub),
        val(nv, VarType::VsppMv) == val(o, VarType::VsppMv),
        val(nv, VarType::SppHv) == val(o, VarType::SppHv),
        val(nv, VarType::BigLotMv) == val(o, VarType::BigLotMv),
        val(nv, VarType::BigLotHv) == val(o, VarType::BigLotHv),
        val(nv, VarType::SubPowCap) == val(o, VarType::SubPowCap),
        val(nv, VarType::SolarEnergy) == val(o, VarType::SolarEnergy),
        forall|i: int| 0 <= i < v.len() && i != var_index(VarType::NewCarReg) && i != var_index(VarType::Gpp)
            && i != var_index(VarType::MaxPosPowSub) && i != var_index(VarType::MaxNegPowSub)
            && i != var_index(VarType::VsppMv) && i != var_index(VarType::SppHv)
            && i != var_index(VarType::BigLotMv) && i != var_index(VarType::BigLotHv)
            && i != var_index(VarType::SubPowCap) && i != var_index(VarType::SolarEnergy)
            ==> #[trigger] nv[i] == v[i],
{
    assert(nv[var_index(VarType::NewCarReg) as int].v == o[var_index(VarType::NewCarReg) as int].v);
    assert(nv[var_index(VarType::Gpp) as int].v == o[var_index(VarType::Gpp) as int].v);
    assert(nv[var_index(VarType::MaxPosPowSub) as int].v == o[var_index(VarType::MaxPosPowSub) as int].v);
    assert(nv[var_index(VarType::MaxNegPowSub) as int].v == o[var_index(VarType::MaxNegPowSub) as int].v);
    assert(nv[var_index(VarType::VsppMv) as int].v == o[var_index(VarType::VsppMv) as int].v);
    assert(nv[var_index(VarType::SppHv) as int].v == o[var_index(VarType::SppHv) as int].v);
    assert(nv[var_index(VarType::BigLotMv) as int].v == o[var_index(VarType::BigLotMv) as int].v);
    assert(nv[var_index(VarType::BigLotHv) as int].v == o[var_index(VarType::BigLotHv) as int].v);
    assert(nv[var_index(VarType::SubPowCap) as int].v == o[var_index(VarType::SubPowCap) as int].v);
    assert(nv[var_index(VarType::SolarEnergy) as int].v == o[var_index(VarType::SolarEnergy) as int].v);
}

/// `r` is `a` divided by `b`, a zero `b` counting as `one`.
pub open spec fn ratio<T, D: Fn(T, T) -> T, Z: Fn(T) -> bool>(a: T, b: T, r: T, over: D, is_zero: Z, one: T) -> bool {
    ||| (is_zero.ensures((b,), true) && over.ensures((a, one), r))
    ||| (is_zero.ensures((b,), false) && over.ensures((a, b), r))
}

/// Recomputing the derived figures sets: the low-voltage saturation to the
/// transformers' peak power over their capacity, and its flag by
/// `lv_saturated`; the medium-voltage saturation to the substation's
/// positive peak over its capacity; the unbalance flag by `unbalanced` on
/// the unbalanced power over the transformers' capacity; the charging
/// stations' capacity and sales, the VSPP on MV, the SPP on HV, the small
/// and large sales and the unbalanced power to their transformer-level (or
/// substation-level) sources; and keeps every other entry.
pub proof fn lemma_recalc_figures<T, D, Z, G, H>(v: Seq<AssVar<T>>, nv: Seq<AssVar<T>>, over: D, is_zero: Z, one: T,
    zero: T, lv_saturated: G, unbalanced: H)
    where D: Fn(T, T) -> T, Z: Fn(T) -> bool, G: Fn(T) -> bool, H: Fn(T) -> bool,
    requires
        recalculated(v, nv, over, is_zero, one, zero, lv_saturated, unbalanced),
        v.len() == VAR_COUNT,
    ensures
        nv.len() == v.len(),
        val(nv, VarType::ChgStnCap) == val(v, VarType::ChgStnCapTr),
        val(nv, VarType::ChgStnSell) == val(v, VarType::ChgStnSellTr),
        val(nv, VarType::MvVspp) == val(v, VarType::VsppMv),
        val(nv, VarType::HvSpp) == val(v, VarType::SppHv),
        val(nv, VarType::SmallSell) == val(v, VarType::SmallSellTr),
        val(nv, VarType::LargeSell) == val(v, VarType::LargeSellTr),
        val(nv, VarType::UnbalPow) == val(v, VarType::UnbalPowTr),
        ratio(val(v, VarType::PkPowTr), val(v, VarType::PwCapTr), val(nv, VarType::LvPowSatTr), over, is_zero, one),
        (lv_saturated.ensures((val(nv, VarType::LvPowSatTr),), true) && val(nv, VarType::CntLvPowSatTr) == one)
            || (lv_saturated.ensures((val(nv, VarType::LvPowSatTr),), false) && val(nv, VarType::CntLvPowSatTr) == zero),
        ratio(val(v, VarType::MaxPosPowSub), val(v, VarType::SubPowCap), val(nv, VarType::MvPowSatTr), over, is_zero, one),
        exists|u: T| #[trigger] ratio(val(v, VarType::UnbalPowTr), val(v, VarType::PwCapTr), u, over, is_zero, one)
            && ((unbalanced.ensures((u,), true) && val(nv, VarType::CntUnbalPow) == one)
            || (unbalanced.ensures((u,), false) && val(nv, VarType::CntUnbalPow) == zero)),
        forall|i: int| 0 <= i < v.len() && i != var_index(VarType::LvPowSatTr)
            && i != var_index(VarType::CntLvPowSatTr) && i != var_index(VarType::ChgStnCap)
            && i != var_index(VarType::ChgStnSell) && i != var_index(VarType::MvPowSatTr)
            && i != var_index(VarType::MvVspp) && i != var_index(VarType::HvSpp)
            && i != var_index(VarType::SmallSell) && i != var_index(VarType::LargeSell)
            && i != var_index(VarType::UnbalPow) && i != var_index(VarType::CntUnbalPow)
            ==> #[trigger] nv[i] == v[i],
{
    let u = choose|u: T| #[trigger] normalized(val(v, VarType::UnbalPowTr), val(v, VarType::PwCapTr), u, over, is_zero, one)
        && flagged(unbalanced, u, one, zero, val(nv, VarType::CntUnbalPow));
    assert(ratio(val(v, VarType::UnbalPowTr), val(v, VarType::PwCapTr), u, over, is_zero, one));
}

} // verus!
