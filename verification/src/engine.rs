//! The lookup of a substation's province in the substation information.

use vstd::prelude::*;
use vstd::hash_map::StringHashMap;

verus! {

/// What is known of a substation: the province it lies in.
#[derive(Clone, Debug)]
pub struct SubInfo {
    pub prov: String,
}

/// The substation information, keyed by substation identifier.
pub struct ProcEngine {
    pub sbif: StringHashMap<SubInfo>,
}

/// The province that `e` records for substation `sb`, empty where it
/// records none.
pub open spec fn province_of(e: &ProcEngine, sb: Seq<char>) -> Seq<char> {
    if e.sbif@.contains_key(sb) {
        e.sbif@[sb].prov@
    } else {
        Seq::empty()
    }
}

impl ProcEngine {
    /// An engine that knows no substation.
    pub fn new() -> (r: ProcEngine)
        ensures
            r.sbif@ == Map::<Seq<char>, SubInfo>::empty(),
    {
        ProcEngine { sbif: StringHashMap::new() }
    }

    /// Records `info` for substation `sb`, replacing what was recorded.
    pub fn set_sub_info(&mut self, sb: String, info: SubInfo)
        ensures
            final(self).sbif@ == old(self).sbif@.insert(sb@, info),
    {
        self.sbif.insert(sb, info);
    }

    /// The province of substation `sb`, or an empty string where the
    /// substation is not known.
    pub fn sb2pv(&self, sb: &String) -> (r: String)
        ensures
            r@ == province_of(self, sb@),
    {
        match self.sbif.get(sb.as_str()) {
            Some(sf) => sf.prov.clone(),
            None => String::new(),
        }
    }
}

impl Default for ProcEngine {
    fn default() -> (r: ProcEngine)
        ensures
            r.sbif@ == Map::<Seq<char>, SubInfo>::empty(),
    {
        ProcEngine::new()
    }
}

/// A substation's province reads back as it was last recorded, and
/// recording one substation leaves every other substation's province as it
/// was.
pub proof fn lemma_province_read_after_write(before: &ProcEngine, after: &ProcEngine, sb: Seq<char>, info: SubInfo, other: Seq<char>)
    requires
        after.sbif@ == before.sbif@.insert(sb, info),
    ensures
        province_of(after, sb) == info.prov@,
        other != sb ==> province_of(after, other) == province_of(before, other),
{
}

/// An engine that knows no substation gives every substation the empty
/// province.
pub proof fn lemma_unknown_province_is_empty(e: &ProcEngine, sb: Seq<char>)
    requires
        !e.sbif@.contains_key(sb),
    ensures
        province_of(e, sb).len() == 0,
{
}

} // verus!
