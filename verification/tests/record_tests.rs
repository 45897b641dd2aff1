use bbsg::assvar::AssVar;
use bbsg::record::PeaAssVar;
use bbsg::subobj::SubAssObj2;
use bbsg::vartype::{SumType, VarType, VAR_COUNT};

fn plus(a: f32, b: f32) -> f32 {
    a + b
}
fn larger(a: f32, b: f32) -> f32 {
    a.max(b)
}
fn smaller(a: f32, b: f32) -> f32 {
    a.min(b)
}
fn over(a: f32, b: f32) -> f32 {
    a / b
}
fn times(a: f32, b: f32) -> f32 {
    a * b
}
fn is_zero(a: f32) -> bool {
    a == 0f32
}

fn rec(vals: &[(VarType, f32)]) -> PeaAssVar<f32, String> {
    let mut r = PeaAssVar::<f32, String>::from(0, 0.0);
    for (t, x) in vals {
        r.v[t.tousz()].v = *x;
    }
    r
}

#[test]
fn tousz_positions() {
    assert_eq!(VarType::NoVar.tousz(), 0);
    assert_eq!(VarType::MaxPosPowSub.tousz(), 1);
    assert_eq!(VarType::FirDataEntrySave.tousz(), VAR_COUNT - 1);
    for i in 0..VAR_COUNT {
        assert_eq!(VarType::from_index(i).tousz(), i);
    }
    let all = VarType::all();
    assert_eq!(all.len(), VAR_COUNT);
    for (i, t) in all.iter().enumerate() {
        assert_eq!(t.tousz(), i);
    }
}

#[test]
fn sum_types_of_variables() {
    assert_eq!(VarType::MaxPosPowSub.sum_type(), SumType::Max);
    assert_eq!(VarType::UnbalPowRate.sum_type(), SumType::Max);
    assert_eq!(VarType::MaxNegDiffFeeder.sum_type(), SumType::Max);
    assert_eq!(VarType::Gpp.sum_type(), SumType::Sum);
    assert_eq!(VarType::NoVar.sum_type(), SumType::Sum);
    assert_eq!(VarType::default(), VarType::NoVar);
}

#[test]
fn from_builds_one_entry_per_variable() {
    let r = PeaAssVar::<f32, String>::from(7, 0.0);
    assert_eq!(r.n1d, 7);
    assert_eq!(r.set, 0);
    assert_eq!(r.res, 0.0);
    assert_eq!(r.v.len(), VAR_COUNT);
    assert_eq!(r.vy.len(), VAR_COUNT);
    for (i, e) in r.v.iter().enumerate() {
        assert_eq!(e.t.tousz(), i);
        assert_eq!(e.s, e.t.sum_type());
        assert_eq!(e.v, 0.0);
    }
    assert!(r.vy.iter().all(|y| y.is_empty()));
    assert!(r.arid.is_empty() && r.pvid.is_empty() && r.sbid.is_empty() && r.aoj.is_empty());
    assert_eq!(r.v[VarType::SolarEnergy.tousz()].t, VarType::SolarEnergy);
}

#[test]
fn assvar_constructors() {
    let a = AssVar::new(VarType::Gpp, SumType::Min, 0f32);
    assert_eq!(a.t, VarType::Gpp);
    assert_eq!(a.s, SumType::Min);
    assert_eq!(a.v, 0.0);
    let b = AssVar::val(2.5f32);
    assert_eq!(b.t, VarType::NoVar);
    assert_eq!(b.s, SumType::Sum);
    assert_eq!(b.v, 2.5);
}

#[test]
fn add_combines_by_rule() {
    let mut a = rec(&[(VarType::Gpp, 2.0), (VarType::MaxPosPowSub, 5.0)]);
    let b = rec(&[(VarType::Gpp, 3.0), (VarType::MaxPosPowSub, 4.0)]);
    a.v[VarType::SolarEnergy.tousz()].s = SumType::Min;
    a.v[VarType::SolarEnergy.tousz()].v = 6.0;
    let mut b2 = b.clone();
    b2.v[VarType::SolarEnergy.tousz()].v = 1.0;
    a.add(&b2, &plus, &larger, &smaller);
    assert_eq!(a.v[VarType::Gpp.tousz()].v, 5.0);
    assert_eq!(a.v[VarType::MaxPosPowSub.tousz()].v, 5.0);
    assert_eq!(a.v[VarType::SolarEnergy.tousz()].v, 1.0);
    assert_eq!(a.set, 0);
}

#[test]
fn add_merges_projections() {
    let mut a = PeaAssVar::<f32, String>::from(0, 0.0);
    let mut b = PeaAssVar::<f32, String>::from(0, 0.0);
    b.vy[0] = vec![1.0, 2.0];
    a.vy[1] = vec![1.0, 1.0];
    b.vy[1] = vec![2.0, 3.0];
    a.vy[2] = vec![1.0];
    b.vy[2] = vec![5.0, 6.0];
    a.vy[3] = vec![4.0];
    a.add(&b, &plus, &larger, &smaller);
    assert_eq!(a.vy[0], vec![1.0, 2.0]);
    assert_eq!(a.vy[1], vec![3.0, 4.0]);
    assert_eq!(a.vy[2], vec![1.0]);
    assert_eq!(a.vy[3], vec![4.0]);
    assert!(a.vy[4].is_empty());
}

#[test]
fn add_stops_at_shorter_record() {
    let mut a = PeaAssVar::<f32, String>::from(0, 1.0);
    let mut b = PeaAssVar::<f32, String>::from(0, 2.0);
    b.v.truncate(3);
    b.vy.truncate(1);
    b.vy[0] = vec![9.0];
    a.vy[1] = vec![];
    a.add(&b, &plus, &larger, &smaller);
    assert_eq!(a.v[0].v, 3.0);
    assert_eq!(a.v[1].v, 2.0);
    assert_eq!(a.v[3].v, 1.0);
    assert_eq!(a.v.len(), VAR_COUNT);
    assert_eq!(a.vy[0], vec![9.0]);
}

#[test]
fn add1_adds_and_returns_empty() {
    let mut a = rec(&[(VarType::Gpp, 2.0)]);
    let b = rec(&[(VarType::Gpp, 3.0)]);
    let s = a.add1(&b, &plus, &larger, &smaller);
    assert_eq!(s, "");
    assert_eq!(a.v[VarType::Gpp.tousz()].v, 5.0);
}

#[test]
fn max_takes_first_then_raises() {
    let mut m = PeaAssVar::<f32, String>::from(0, 0.0);
    m.max(&rec(&[(VarType::Gpp, -3.0)]), &larger);
    assert_eq!(m.set, 1);
    assert_eq!(m.v[VarType::Gpp.tousz()].v, -3.0);
    m.max(&rec(&[(VarType::Gpp, -5.0)]), &larger);
    assert_eq!(m.v[VarType::Gpp.tousz()].v, -3.0);
    m.max(&rec(&[(VarType::Gpp, 7.0)]), &larger);
    assert_eq!(m.v[VarType::Gpp.tousz()].v, 7.0);
    assert_eq!(m.set, 3);
}

#[test]
fn min_behaves_as_a_running_maximum() {
    let mut m = PeaAssVar::<f32, String>::from(0, 0.0);
    m.min(&rec(&[(VarType::Gpp, -3.0)]), &larger);
    assert_eq!(m.set, 2);
    assert_eq!(m.v[VarType::Gpp.tousz()].v, -3.0);
    m.min(&rec(&[(VarType::Gpp, 4.0)]), &larger);
    assert_eq!(m.set, 3);
    assert_eq!(m.v[VarType::Gpp.tousz()].v, 4.0);
    m.min(&rec(&[(VarType::Gpp, 1.0)]), &larger);
    assert_eq!(m.v[VarType::Gpp.tousz()].v, 4.0);
}

#[test]
fn weigh_multiplies() {
    let mut a = rec(&[(VarType::Gpp, 3.0)]);
    a.weigh(&rec(&[(VarType::Gpp, 0.5)]), &times);
    assert_eq!(a.v[VarType::Gpp.tousz()].v, 1.5);
    assert_eq!(a.v[VarType::NewCarReg.tousz()].v, 0.0);
}

#[test]
fn nor_divides_with_zero_as_one() {
    let mut a = rec(&[(VarType::Gpp, 3.0), (VarType::NewCarReg, 8.0)]);
    let mx = rec(&[(VarType::Gpp, 6.0)]);
    a.nor(&mx, &over, &is_zero, 1.0);
    assert_eq!(a.v[VarType::Gpp.tousz()].v, 0.5);
    assert_eq!(a.v[VarType::NewCarReg.tousz()].v, 8.0);
}

#[test]
fn div_divides_unless_zero() {
    let mut a = rec(&[(VarType::Gpp, 3.0)]);
    a.div(0.0, &is_zero, &over);
    assert_eq!(a.v[VarType::Gpp.tousz()].v, 3.0);
    a.div(2.0, &is_zero, &over);
    assert_eq!(a.v[VarType::Gpp.tousz()].v, 1.5);
}

#[test]
fn copy_takes_one_variable() {
    let mut a = rec(&[(VarType::Gpp, 3.0), (VarType::NewCarReg, 1.0)]);
    let b = rec(&[(VarType::Gpp, 9.0), (VarType::NewCarReg, 5.0)]);
    a.copy(&b, VarType::Gpp);
    assert_eq!(a.v[VarType::Gpp.tousz()].v, 9.0);
    assert_eq!(a.v[VarType::NewCarReg.tousz()].v, 1.0);
}

#[test]
fn sum_totals_values() {
    let mut a = rec(&[(VarType::Gpp, 3.0), (VarType::NewCarReg, 1.5)]);
    a.sum(&plus, 0.0);
    assert_eq!(a.res, 4.5);
}

#[test]
fn sub_figures_come_from_first_record() {
    let mut a = rec(&[(VarType::Gpp, 3.0), (VarType::PkPowTr, 2.0)]);
    let b = rec(&[(VarType::Gpp, 9.0), (VarType::SolarEnergy, 4.0), (VarType::PkPowTr, 7.0)]);
    a.copy_sub_figures(&b);
    assert_eq!(a.v[VarType::Gpp.tousz()].v, 9.0);
    assert_eq!(a.v[VarType::SolarEnergy.tousz()].v, 4.0);
    assert_eq!(a.v[VarType::PkPowTr.tousz()].v, 2.0);
}

#[test]
fn recalc_derives_saturations_and_flags() {
    let mut a = rec(&[
        (VarType::PkPowTr, 90.0),
        (VarType::PwCapTr, 100.0),
        (VarType::MaxPosPowSub, 30.0),
        (VarType::SubPowCap, 0.0),
        (VarType::UnbalPowTr, 40.0),
        (VarType::ChgStnCapTr, 5.0),
        (VarType::SmallSellTr, 6.0),
    ]);
    a.recalc(&over, &is_zero, 1.0, 0.0, &|x: f32| x > 0.8f32, &|x: f32| x > 0.5f32);
    assert_eq!(a.v[VarType::LvPowSatTr.tousz()].v, 0.9);
    assert_eq!(a.v[VarType::CntLvPowSatTr.tousz()].v, 1.0);
    assert_eq!(a.v[VarType::MvPowSatTr.tousz()].v, 30.0);
    assert_eq!(a.v[VarType::UnbalPow.tousz()].v, 40.0);
    assert_eq!(a.v[VarType::CntUnbalPow.tousz()].v, 0.0);
    assert_eq!(a.v[VarType::ChgStnCap.tousz()].v, 5.0);
    assert_eq!(a.v[VarType::SmallSell.tousz()].v, 6.0);
    assert_eq!(a.v[VarType::PkPowTr.tousz()].v, 90.0);
}

#[test]
fn sub_ass_obj_sum() {
    let mut o = SubAssObj2 {
        ev1: 1.0f32,
        ev2: 2.0,
        ev3: 3.0,
        ev4: 4.0,
        ev5: 5.0,
        re1: 6.0,
        re2: 7.0,
        re3: 8.0,
        en1: 9.0,
        en2: 10.0,
        en3: 11.0,
        en4: 12.0,
        sum: 0.0,
    };
    o.sum(&plus);
    assert_eq!(o.sum, 78.0);
    assert_eq!(o.en4, 12.0);
}

#[test]
fn running_max_over_substations() {
    let recs = vec![
        rec(&[(VarType::Gpp, 2.0), (VarType::NewCarReg, -1.0)]),
        rec(&[(VarType::Gpp, 5.0), (VarType::NewCarReg, -4.0)]),
        rec(&[(VarType::Gpp, 3.0), (VarType::NewCarReg, -2.0)]),
    ];
    let mut mx = PeaAssVar::<f32, String>::from(0, 0.0);
    for r in &recs {
        mx.max(r, &larger);
    }
    assert_eq!(mx.v[VarType::Gpp.tousz()].v, 5.0);
    assert_eq!(mx.v[VarType::NewCarReg.tousz()].v, -1.0);
    assert_eq!(mx.set, 3);
    let mut a = recs[2].clone();
    a.nor(&mx, &over, &is_zero, 1.0);
    assert_eq!(a.v[VarType::Gpp.tousz()].v, 0.6);
    assert_eq!(a.v[VarType::NewCarReg.tousz()].v, 2.0);
}

#[test]
fn projections_go_to_benefit_fields() {
    let mut a = PeaAssVar::<f32, String>::from(0, 0.0);
    a.vy[VarType::FirCashFlow.tousz()] = vec![1.0];
    let projs = vec![vec![5.0, 6.0], vec![2.0, 3.0]];
    a.append_projections(&projs);
    assert_eq!(a.vy[VarType::FirBilAccu.tousz()], vec![5.0, 6.0]);
    assert_eq!(a.vy[VarType::FirCashFlow.tousz()], vec![1.0, 2.0, 3.0]);
    assert!(a.vy[VarType::FirDRSave.tousz()].is_empty());
    assert!(a.vy[VarType::Gpp.tousz()].is_empty());
}

#[test]
fn add1_leaves_what_add_leaves() {
    let mut a = rec(&[(VarType::Gpp, 1.5), (VarType::MaxPosPowSub, 3.0)]);
    a.vy[VarType::FirBilAccu.tousz()] = vec![1.0, 2.0];
    let mut b = a.clone();
    let mut o = rec(&[(VarType::Gpp, 2.0), (VarType::MaxPosPowSub, 5.0)]);
    o.vy[VarType::FirBilAccu.tousz()] = vec![3.0, 4.0];
    let s = a.add1(&o, &plus, &larger, &smaller);
    b.add(&o, &plus, &larger, &smaller);
    assert_eq!(s, "");
    assert_eq!(a.v[VarType::Gpp.tousz()].v, b.v[VarType::Gpp.tousz()].v);
    assert_eq!(a.v[VarType::Gpp.tousz()].v, 3.5);
    assert_eq!(a.v[VarType::MaxPosPowSub.tousz()].v, 5.0);
    assert_eq!(a.vy, b.vy);
    assert_eq!(a.vy[VarType::FirBilAccu.tousz()], vec![4.0, 6.0]);
    assert_eq!(o.v[VarType::Gpp.tousz()].v, 2.0);
}

#[test]
fn sum_twice_changes_nothing() {
    let mut o = SubAssObj2 {
        ev1: 1.0,
        ev2: 2.0,
        ev3: 3.0,
        ev4: 4.0,
        ev5: 5.0,
        re1: 6.0,
        re2: 7.0,
        re3: 8.0,
        en1: 9.0,
        en2: 10.0,
        en3: 11.0,
        en4: 12.0,
        sum: 100.0,
    };
    o.sum(&plus);
    let first = o.sum;
    o.sum(&plus);
    assert_eq!(first, 78.0);
    assert_eq!(o.sum, first);
    assert_eq!(o.ev1, 1.0);
}
