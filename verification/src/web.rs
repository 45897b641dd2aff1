//! The substation page: which benefit field it shows, and what it holds.

use vstd::prelude::*;
use std::collections::HashMap;
use crate::vartype::{fir_at, fir_list, var_index, var_name, VarType, FIR_COUNT};
use crate::record::PeaAssVar;
use crate::engine::SubInfo;

verus! {

/// The query of the substation page: the name of the field to show.
#[derive(Clone, Debug)]
pub struct Param {
    pub fld: Option<String>,
}

/// `r` is the field that a page asked for `fld` shows: the first benefit
/// field when none is asked for; otherwise the first benefit field with
/// that name, and none where no benefit field has it.
pub open spec fn field_for(fld: Option<String>, r: Option<VarType>) -> bool {
    match fld {
        None => r == Some(fir_at(0)),
        Some(f) => match r {
            Some(t) => exists|i: int| 0 <= i < FIR_COUNT && t == #[trigger] fir_at(i)
                && var_name(t)@ == f@
                && forall|j: int| 0 <= j < i ==> var_name(#[trigger] fir_at(j))@ != f@,
            None => forall|j: int| 0 <= j < FIR_COUNT ==> var_name(#[trigger] fir_at(j))@ != f@,
        },
    }
}

impl Param {
    /// The field that the page shows.
    pub fn selected_field(&self) -> (r: Option<VarType>)
        ensures
            field_for(self.fld, r),
    {
        let firs = fir_list();
        match &self.fld {
            None => Some(firs[0]),
            Some(f) => {
                let mut i: usize = 0;
                while i < FIR_COUNT
                    invariant
                        i <= FIR_COUNT,
                        self.fld == Some(*f),
                        firs.len() == FIR_COUNT,
                        forall|k: int| 0 <= k < FIR_COUNT ==> #[trigger] firs[k] == fir_at(k),
                        forall|j: int| 0 <= j < i ==> var_name(#[trigger] fir_at(j))@ != f@,
                    decreases FIR_COUNT - i,
                {
                    let t = firs[i];
                    let nm = String::from_str(t.name());
                    if nm == *f {
                        let ghost k = i as int;
                        assert(t == fir_at(k));
                        assert(var_name(t)@ == f@);
                        assert(0 <= k < FIR_COUNT && t == fir_at(k) && var_name(t)@ == f@
                            && forall|j: int| 0 <= j < k ==> var_name(#[trigger] fir_at(j))@ != f@);
                        return Some(t);
                    }
                    i = i + 1;
                }
                None
            },
        }
    }
}

/// The substation page: its title, the substation records, what is known
/// of each substation, and the field shown.
pub struct WebTemp<T, A> {
    pub name: String,
    pub assv: Vec<PeaAssVar<T, A>>,
    pub sbif: HashMap<String, SubInfo>,
    pub se_fld: VarType,
}

impl<T, A> WebTemp<T, A> {
    /// The page of substations, sorted by substation, showing `se_fld`.
    pub fn sb01(assv: Vec<PeaAssVar<T, A>>, sbif: HashMap<String, SubInfo>, se_fld: VarType) -> (r: WebTemp<T, A>)
        ensures
            r.name@ == "Substation - sb01 (sort by sub)"@,
            r.assv == assv,
            r.sbif == sbif,
            r.se_fld == se_fld,
    {
        WebTemp { name: String::from_str("Substation - sb01 (sort by sub)"), assv, sbif, se_fld }
    }
}


/// A page that asks for no field shows billing accuracy, the first benefit
/// field; one that asks for a field by name shows a benefit field of that
/// name.
pub proof fn lemma_selected_field(fld: Option<String>, r: Option<VarType>)
    requires
        field_for(fld, r),
    ensures
        fld is None ==> r == Some(VarType::FirBilAccu),
        fld is Some && r is Some ==> var_name(r->0)@ == fld->0@
            && var_index(VarType::FirBilAccu) <= var_index(r->0) < var_index(VarType::FirBilAccu) + FIR_COUNT,
{
    crate::vartype::lemma_benefit_fields();
    if let (Some(f), Some(t)) = (fld, r) {
        let i = choose|i: int| 0 <= i < FIR_COUNT && t == #[trigger] fir_at(i)
            && var_name(t)@ == f@
            && forall|j: int| 0 <= j < i ==> var_name(#[trigger] fir_at(j))@ != f@;
        crate::vartype::lemma_var_at_inverse(var_index(VarType::FirBilAccu) + i);
    }
}

} // verus!
