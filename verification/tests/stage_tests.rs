use bbsg::record::PeaAssVar;
use bbsg::stage::{assign_ranks, stage, substation_record, ProvInput, SubInput};
use bbsg::vartype::{VarType, VAR_COUNT};

fn plus(a: f32, b: f32) -> f32 {
    a + b
}
fn larger(a: f32, b: f32) -> f32 {
    a.max(b)
}
fn smaller(a: f32, b: f32) -> f32 {
    a.min(b)
}
fn over(a: f32, b: f32) -> f32 {
    a / b
}
fn is_zero(a: f32) -> bool {
    a == 0f32
}
fn lv_saturated(a: f32) -> bool {
    a > 0.8f32
}
fn unbalanced(a: f32) -> bool {
    a > 0.5f32
}
fn key(x: f32) -> u64 {
    let b = x.to_bits();
    let k = if b & 0x8000_0000 != 0 { !b } else { b | 0x8000_0000 };
    k as u64
}
fn to_value(r: usize) -> f32 {
    r as f32
}

fn tr(sbid: &str, aoj: &str, vals: &[(VarType, f32)]) -> PeaAssVar<f32, String> {
    let mut r = PeaAssVar::<f32, String>::from(0, 0.0);
    r.sbid = sbid.to_string();
    r.aoj = aoj.to_string();
    for (t, x) in vals {
        r.v[t.tousz()].v = *x;
    }
    r
}

fn val(r: &PeaAssVar<f32, String>, t: VarType) -> f32 {
    r.v[t.tousz()].v
}

fn sub_trs() -> Vec<PeaAssVar<f32, String>> {
    vec![
        tr(
            "S1",
            "X",
            &[
                (VarType::PkPowTr, 10.0),
                (VarType::PwCapTr, 100.0),
                (VarType::Gpp, 7.0),
                (VarType::UnbalPowTr, 60.0),
                (VarType::SubPowCap, 50.0),
                (VarType::MaxPosPowSub, 40.0),
            ],
        ),
        tr(
            "S1",
            "Y",
            &[
                (VarType::PkPowTr, 30.0),
                (VarType::PwCapTr, 100.0),
                (VarType::Gpp, 9.0),
                (VarType::UnbalPowTr, 50.0),
                (VarType::SubPowCap, 70.0),
            ],
        ),
        tr("S1", "X", &[(VarType::PkPowTr, 50.0)]),
    ]
}

#[test]
fn substation_record_sums_transformers() {
    let trs = sub_trs();
    let projs = vec![vec![1.0, 2.0]];
    let aojv = vec!["office".to_string()];
    let r = substation_record(
        "A1".to_string(),
        "P1".to_string(),
        &trs,
        true,
        Some(&projs),
        &aojv,
        0.0,
        1.0,
        &plus,
        &larger,
        &smaller,
        &over,
        &is_zero,
        &lv_saturated,
        &unbalanced,
    );
    assert_eq!(r.arid, "A1");
    assert_eq!(r.pvid, "P1");
    assert_eq!(r.sbid, "S1");
    assert_eq!(r.aoj, "X,Y");
    assert_eq!(r.aojv, vec!["office".to_string()]);
    assert_eq!(r.v.len(), VAR_COUNT);
    assert_eq!(val(&r, VarType::PkPowTr), 90.0);
    assert_eq!(val(&r, VarType::PwCapTr), 200.0);
    assert_eq!(val(&r, VarType::LvPowSatTr), 0.45);
    assert_eq!(val(&r, VarType::CntLvPowSatTr), 0.0);
    assert_eq!(val(&r, VarType::UnbalPow), 110.0);
    assert_eq!(val(&r, VarType::CntUnbalPow), 1.0);
    // substation-wide figures come from the first transformer record
    assert_eq!(val(&r, VarType::Gpp), 7.0);
    assert_eq!(val(&r, VarType::SubPowCap), 50.0);
    assert_eq!(val(&r, VarType::MaxPosPowSub), 40.0);
    assert_eq!(val(&r, VarType::MvPowSatTr), 0.8);
    assert_eq!(val(&r, VarType::TakeNote), 1.0);
    assert_eq!(r.vy[VarType::FirBilAccu.tousz()], vec![1.0, 2.0]);
    assert!(r.vy[VarType::FirCashFlow.tousz()].is_empty());
    assert_eq!(r.set, 0);
}

#[test]
fn substation_record_not_noted_without_projections() {
    let trs = sub_trs();
    let r = substation_record(
        "A1".to_string(),
        "P1".to_string(),
        &trs[1..2].to_vec(),
        false,
        None,
        &vec![],
        0.0,
        1.0,
        &plus,
        &larger,
        &smaller,
        &over,
        &is_zero,
        &lv_saturated,
        &unbalanced,
    );
    assert_eq!(r.aoj, "Y");
    assert!(r.aojv.is_empty());
    assert_eq!(val(&r, VarType::TakeNote), 0.0);
    assert_eq!(val(&r, VarType::PkPowTr), 30.0);
    assert!(r.vy[VarType::FirBilAccu.tousz()].is_empty());
}

#[test]
fn assign_ranks_writes_rank_to_each_record() {
    let mut v = vec![
        tr("S1", "X", &[(VarType::Uc1Val, 5.0)]),
        tr("S2", "X", &[(VarType::Uc1Val, 9.0)]),
        tr("S3", "X", &[(VarType::Uc1Val, 7.0)]),
        tr("S4", "X", &[(VarType::Uc1Val, 7.0)]),
    ];
    let keys: Vec<u64> = v.iter().map(|r| key(val(r, VarType::Uc1Val))).collect();
    assign_ranks(&mut v, &keys, VarType::Uc1Rank, &to_value);
    assert_eq!(val(&v[0], VarType::Uc1Rank), 3.0);
    assert_eq!(val(&v[1], VarType::Uc1Rank), 0.0);
    assert_eq!(val(&v[2], VarType::Uc1Rank), 1.0);
    assert_eq!(val(&v[3], VarType::Uc1Rank), 2.0);
    assert_eq!(val(&v[0], VarType::Uc1Val), 5.0);
    assert_eq!(v[0].sbid, "S1");
}

#[test]
fn normalised_divides_a_copy() {
    let a = tr("S1", "X", &[(VarType::Gpp, 6.0), (VarType::NewCarReg, 4.0)]);
    let m = tr("", "", &[(VarType::Gpp, 3.0)]);
    let r = a.normalised(&m, &over, &is_zero, 1.0);
    assert_eq!(val(&r, VarType::Gpp), 2.0);
    assert_eq!(val(&r, VarType::NewCarReg), 4.0);
    assert_eq!(val(&a, VarType::Gpp), 6.0);
    assert_eq!(r.sbid, "S1");
}

fn sub(trs: Vec<PeaAssVar<f32, String>>, noted: bool) -> SubInput<f32, String> {
    SubInput { trs, noted, projs: None, aojv: vec![] }
}

#[test]
fn stage_builds_substations_provinces_and_ranks() {
    let s1 = vec![
        tr("S1", "X", &[(VarType::PkPowTr, 10.0), (VarType::Gpp, 4.0), (VarType::Uc1Val, 2.0)]),
        tr("S1", "X", &[(VarType::PkPowTr, 20.0), (VarType::Gpp, 1.0), (VarType::Uc1Val, 1.0)]),
    ];
    let s2 = vec![tr("S2", "Y", &[(VarType::PkPowTr, 5.0), (VarType::Gpp, 8.0), (VarType::Uc1Val, 9.0)])];
    let s3 = vec![tr("S3", "Z", &[(VarType::PkPowTr, 7.0), (VarType::Gpp, 2.0), (VarType::Uc1Val, 4.0)])];
    let ps = vec![
        ProvInput {
            arid: "A1".to_string(),
            pvid: "P1".to_string(),
            subs: vec![sub(s1, true), sub(s2, false)],
        },
        ProvInput { arid: "A1".to_string(), pvid: "P2".to_string(), subs: vec![sub(s3, true)] },
    ];
    let out = stage(
        &ps,
        0.0,
        1.0,
        &plus,
        &larger,
        &smaller,
        &over,
        &is_zero,
        &lv_saturated,
        &unbalanced,
        &key,
        &to_value,
    );
    assert_eq!(out.subs.len(), 3);
    assert_eq!(out.provs.len(), 2);
    assert_eq!(out.subs_normalised.len(), 3);
    assert_eq!(out.subs[0].sbid, "S1");
    assert_eq!(out.subs[0].pvid, "P1");
    assert_eq!(out.subs[2].pvid, "P2");
    assert_eq!(val(&out.subs[0], VarType::PkPowTr), 30.0);
    assert_eq!(val(&out.subs[0], VarType::Gpp), 4.0);
    assert_eq!(val(&out.subs[0], VarType::Uc1Val), 3.0);
    // province P1 sums its noted substation only; GPP is the last substation's
    assert_eq!(out.provs[0].pvid, "P1");
    assert_eq!(val(&out.provs[0], VarType::PkPowTr), 30.0);
    assert_eq!(val(&out.provs[0], VarType::Gpp), 8.0);
    assert_eq!(val(&out.provs[1], VarType::PkPowTr), 7.0);
    // running maximum over the substation records
    assert_eq!(out.sub_max.set, 3);
    assert_eq!(val(&out.sub_max, VarType::PkPowTr), 30.0);
    assert_eq!(val(&out.sub_max, VarType::Gpp), 8.0);
    // ranks by the first use-case value, largest first
    assert_eq!(val(&out.subs[0], VarType::Uc1Rank), 2.0);
    assert_eq!(val(&out.subs[1], VarType::Uc1Rank), 0.0);
    assert_eq!(val(&out.subs[2], VarType::Uc1Rank), 1.0);
    // each ranked record divided by the maximum
    assert_eq!(val(&out.subs_normalised[1], VarType::Gpp), 1.0);
    assert_eq!(val(&out.subs_normalised[2], VarType::PkPowTr), 7.0 / 30.0);
    assert_eq!(val(&out.subs_normalised[1], VarType::Uc1Rank), 0.0);
}

#[test]
fn stage_on_nothing_is_empty() {
    let ps: Vec<ProvInput<f32, String>> = vec![];
    let out = stage(
        &ps,
        0.0,
        1.0,
        &plus,
        &larger,
        &smaller,
        &over,
        &is_zero,
        &lv_saturated,
        &unbalanced,
        &key,
        &to_value,
    );
    assert!(out.subs.is_empty());
    assert!(out.provs.is_empty());
    assert!(out.subs_normalised.is_empty());
    assert_eq!(out.sub_max.set, 0);
    assert_eq!(out.sub_max.v.len(), VAR_COUNT);
}
