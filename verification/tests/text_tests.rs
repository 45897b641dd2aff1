use bbsg::aoj::aoj_list;
use bbsg::engine::{ProcEngine, SubInfo};
use bbsg::san::{san, san_decimals, san_front, san_split};

#[test]
fn san_groups_by_three_from_the_right() {
    assert_eq!(san("1234567"), "1,234,567");
    assert_eq!(san("123456"), "123,456");
    assert_eq!(san("1234"), "1,234");
    assert_eq!(san("123"), "123");
    assert_eq!(san("12"), "12");
    assert_eq!(san(""), "");
}

#[test]
fn san_counts_the_sign_as_a_digit() {
    assert_eq!(san("-123456"), "-,123,456");
    assert_eq!(san("-12345"), "-12,345");
}

#[test]
fn san_then_strip_commas_gives_back() {
    let s = "98765432109";
    assert_eq!(san(s).replace(",", ""), s);
}

#[test]
fn san_split_keeps_the_decimals() {
    assert_eq!(san_split("1234567.89", 3), "1,234,567.89");
    assert_eq!(san_split("1234.567", 4), "1,234.567");
    assert_eq!(san_split("0.50", 3), "0.50");
}

#[test]
fn san_front_drops_the_decimals() {
    assert_eq!(san_front("1234567.89", 3), "1,234,567");
    assert_eq!(san_front("12.34", 3), "12");
}

#[test]
fn aoj_list_joins_distinct_names_in_order() {
    let names = vec!["B".to_string(), "A".to_string(), "B".to_string(), "C".to_string()];
    assert_eq!(aoj_list(&names), "B,A,C");
}

#[test]
fn aoj_list_empty_names() {
    assert_eq!(aoj_list(&vec![]), "");
    let names = vec!["".to_string(), "A".to_string(), "".to_string()];
    assert_eq!(aoj_list(&names), "A");
    let names = vec!["A".to_string(), "".to_string()];
    assert_eq!(aoj_list(&names), "A,");
}

#[test]
fn sb2pv_reads_back_province() {
    let mut e = ProcEngine::new();
    assert_eq!(e.sb2pv(&"S1".to_string()), "");
    e.set_sub_info("S1".to_string(), SubInfo { prov: "P1".to_string() });
    e.set_sub_info("S2".to_string(), SubInfo { prov: "P2".to_string() });
    assert_eq!(e.sb2pv(&"S1".to_string()), "P1");
    assert_eq!(e.sb2pv(&"S2".to_string()), "P2");
    e.set_sub_info("S1".to_string(), SubInfo { prov: "P9".to_string() });
    assert_eq!(e.sb2pv(&"S1".to_string()), "P9");
    assert_eq!(e.sb2pv(&"S3".to_string()), "");
    let d = ProcEngine::default();
    assert_eq!(d.sb2pv(&"S1".to_string()), "");
}

use bbsg::vartype::VarType;
use bbsg::vartype::{fir_list, FIR_COUNT};
use bbsg::web::{Param, WebTemp};
use std::collections::HashMap;

#[test]
fn fir_fields_in_order() {
    let f = fir_list();
    assert_eq!(f.len(), FIR_COUNT);
    assert_eq!(f[0], VarType::FirBilAccu);
    assert_eq!(f[FIR_COUNT - 1], VarType::FirDataEntrySave);
    assert_eq!(VarType::FirCashFlow.name(), "FirCashFlow");
    assert_eq!(format!("{:?}", VarType::FirTouSell), VarType::FirTouSell.name());
}

#[test]
fn selected_field_by_name() {
    let p = Param { fld: None };
    assert_eq!(p.selected_field(), Some(VarType::FirBilAccu));
    let p = Param { fld: Some("FirMetSell".to_string()) };
    assert_eq!(p.selected_field(), Some(VarType::FirMetSell));
    let p = Param { fld: Some("Gpp".to_string()) };
    assert_eq!(p.selected_field(), None);
    let p = Param { fld: Some("nothing".to_string()) };
    assert_eq!(p.selected_field(), None);
}

#[test]
fn sb01_page_contents() {
    let mut sbif = HashMap::new();
    sbif.insert("S1".to_string(), SubInfo { prov: "P".to_string() });
    let w: WebTemp<f32, String> = WebTemp::sb01(vec![], sbif, VarType::FirCashFlow);
    assert_eq!(w.name, "Substation - sb01 (sort by sub)");
    assert_eq!(w.se_fld, VarType::FirCashFlow);
    assert_eq!(w.sbif.len(), 1);
    assert!(w.assv.is_empty());
}

#[test]
fn san_decimals_by_precision() {
    assert_eq!(san_decimals("1234567.8912", 4), "1,234,567.8912");
    assert_eq!(san_decimals("1234.5", 1), "1,234.5");
    assert_eq!(san_decimals("1234567", 0), "1,234,567");
    assert_eq!(san_decimals("1234567", 9), "1,234,567");
}
