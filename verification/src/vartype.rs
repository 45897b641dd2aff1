//! The assessment variables of a substation or a province, and how each
//! one is combined when several records are added together.

use vstd::prelude::*;

verus! {

/// How the values of one variable are combined when records are added.
#[derive(Clone, Copy, Debug, PartialEq, Eq, Structural)]
pub enum SumType {
    Sum,
    Max,
    Min,
}

/// The assessment variables, in the order in which a record stores them.
#[derive(Clone, Copy, Debug, PartialEq, Eq, Structural)]
pub enum VarType {
    NoVar,
    MaxPosPowSub,
    MaxNegPowSub,
    MaxPosPowFeeder,
    MaxNegPowFeeder,
    MaxPosDiffFeeder,
    MaxNegDiffFeeder,
    UnbalPowRate,
    NewCarReg,
    Gpp,
    VsppMv,
    SppHv,
    BigLotMv,
    BigLotHv,
    SubPowCap,
    SolarEnergy,
    PkPowTr,
    PwCapTr,
    LvPowSatTr,
    CntLvPowSatTr,
    ChgStnCapTr,
    ChgStnCap,
    ChgStnSellTr,
    ChgStnSell,
    MvPowSatTr,
    MvVspp,
    HvSpp,
    SmallSellTr,
    SmallSell,
    LargeSellTr,
    LargeSell,
    UnbalPowTr,
    UnbalPow,
    CntUnbalPow,
    TakeNote,
    Uc1Val,
    Uc1Rank,
    Uc2Val,
    Uc2Rank,
    Uc3Val,
    Uc3Rank,
    FirBilAccu,
    FirCashFlow,
    FirDRSave,
    FirBatSubSave,
    FirBatSvgSave,
    FirBatEnerSave,
    FirBatPriceDiff,
    FirMetBoxSave,
    FirLaborSave,
    FirMetSell,
    FirEMetSave,
    FirMetReadSave,
    FirMetDisSave,
    FirTouSell,
    FirTouReadSave,
    FirTouUpdateSave,
    FirOutLabSave,
    FirComplainSave,
    FirAssetValue,
    FirDataEntrySave,
}

/// The number of assessment variables.
pub const VAR_COUNT: usize = 61;

/// The position of a variable in a record.
pub open spec fn var_index(t: VarType) -> nat {
    match t {
        VarType::NoVar => 0,
        VarType::MaxPosPowSub => 1,
        VarType::MaxNegPowSub => 2,
        VarType::MaxPosPowFeeder => 3,
        VarType::MaxNegPowFeeder => 4,
        VarType::MaxPosDiffFeeder => 5,
        VarType::MaxNegDiffFeeder => 6,
        VarType::UnbalPowRate => 7,
        VarType::NewCarReg => 8,
        VarType::Gpp => 9,
        VarType::VsppMv => 10,
        VarType::SppHv => 11,
        VarType::BigLotMv => 12,
        VarType::BigLotHv => 13,
        VarType::SubPowCap => 14,
        VarType::SolarEnergy => 15,
        VarType::PkPowTr => 16,
        VarType::PwCapTr => 17,
        VarType::LvPowSatTr => 18,
        VarType::CntLvPowSatTr => 19,
        VarType::ChgStnCapTr => 20,
        VarType::ChgStnCap => 21,
        VarType::ChgStnSellTr => 22,
        VarType::ChgStnSell => 23,
        VarType::MvPowSatTr => 24,
        VarType::MvVspp => 25,
        VarType::HvSpp => 26,
        VarType::SmallSellTr => 27,
        VarType::SmallSell => 28,
        VarType::LargeSellTr => 29,
        VarType::LargeSell => 30,
        VarType::UnbalPowTr => 31,
        VarType::UnbalPow => 32,
        VarType::CntUnbalPow => 33,
        VarType::TakeNote => 34,
        VarType::Uc1Val => 35,
        VarType::Uc1Rank => 36,
        VarType::Uc2Val => 37,
        VarType::Uc2Rank => 38,
        VarType::Uc3Val => 39,
        VarType::Uc3Rank => 40,
        VarType::FirBilAccu => 41,
        VarType::FirCashFlow => 42,
        VarType::FirDRSave => 43,
        VarType::FirBatSubSave => 44,
        VarType::FirBatSvgSave => 45,
        VarType::FirBatEnerSave => 46,
        VarType::FirBatPriceDiff => 47,
        VarType::FirMetBoxSave => 48,
        VarType::FirLaborSave => 49,
        VarType::FirMetSell => 50,
        VarType::FirEMetSave => 51,
        VarType::FirMetReadSave => 52,
        VarType::FirMetDisSave => 53,
        VarType::FirTouSell => 54,
        VarType::FirTouReadSave => 55,
        VarType::FirTouUpdateSave => 56,
        VarType::FirOutLabSave => 57,
        VarType::FirComplainSave => 58,
        VarType::FirAssetValue => 59,
        VarType::FirDataEntrySave => 60,
    }
}

/// The variable stored at position `i` of a record.
pub open spec fn var_at(i: int) -> VarType {
    if i == 1 {
        VarType::MaxPosPowSub
    } else if i == 2 {
        VarType::MaxNegPowSub
    } else if i == 3 {
        VarType::MaxPosPowFeeder
    } else if i == 4 {
        VarType::MaxNegPowFeeder
    } else if i == 5 {
        VarType::MaxPosDiffFeeder
    } else if i == 6 {
        VarType::MaxNegDiffFeeder
    } else if i == 7 {
        VarType::UnbalPowRate
    } else if i == 8 {
        VarType::NewCarReg
    } else if i == 9 {
        VarType::Gpp
    } else if i == 10 {
        VarType::VsppMv
    } else if i == 11 {
        VarType::SppHv
    } else if i == 12 {
        VarType::BigLotMv
    } else if i == 13 {
        VarType::BigLotHv
    } else if i == 14 {
        VarType::SubPowCap
    } else if i == 15 {
        VarType::SolarEnergy
    } else if i == 16 {
        VarType::PkPowTr
    } else if i == 17 {
        VarType::PwCapTr
    } else if i == 18 {
        VarType::LvPowSatTr
    } else if i == 19 {
        VarType::CntLvPowSatTr
    } else if i == 20 {
        VarType::ChgStnCapTr
    } else if i == 21 {
        VarType::ChgStnCap
    } else if i == 22 {
        VarType::ChgStnSellTr
    } else if i == 23 {
        VarType::ChgStnSell
    } else if i == 24 {
        VarType::MvPowSatTr
    } else if i == 25 {
        VarType::MvVspp
    } else if i == 26 {
        VarType::HvSpp
    } else if i == 27 {
        VarType::SmallSellTr
    } else if i == 28 {
        VarType::SmallSell
    } else if i == 29 {
        VarType::LargeSellTr
    } else if i == 30 {
        VarType::LargeSell
    } else if i == 31 {
        VarType::UnbalPowTr
    } else if i == 32 {
        VarType::UnbalPow
    } else if i == 33 {
        VarType::CntUnbalPow
    } else if i == 34 {
        VarType::TakeNote
    } else if i == 35 {
        VarType::Uc1Val
    } else if i == 36 {
        VarType::Uc1Rank
    } else if i == 37 {
        VarType::Uc2Val
    } else if i == 38 {
        VarType::Uc2Rank
    } else if i == 39 {
        VarType::Uc3Val
    } else if i == 40 {
        VarType::Uc3Rank
    } else if i == 41 {
        VarType::FirBilAccu
    } else if i == 42 {
        VarType::FirCashFlow
    } else if i == 43 {
        VarType::FirDRSave
    } else if i == 44 {
        VarType::FirBatSubSave
    } else if i == 45 {
        VarType::FirBatSvgSave
    } else if i == 46 {
        VarType::FirBatEnerSave
    } else if i == 47 {
        VarType::FirBatPriceDiff
    } else if i == 48 {
        VarType::FirMetBoxSave
    } else if i == 49 {
        VarType::FirLaborSave
    } else if i == 50 {
        VarType::FirMetSell
    } else if i == 51 {
        VarType::FirEMetSave
    } else if i == 52 {
        VarType::FirMetReadSave
    } else if i == 53 {
        VarType::FirMetDisSave
    } else if i == 54 {
        VarType::FirTouSell
    } else if i == 55 {
        VarType::FirTouReadSave
    } else if i == 56 {
        VarType::FirTouUpdateSave
    } else if i == 57 {
        VarType::FirOutLabSave
    } else if i == 58 {
        VarType::FirComplainSave
    } else if i == 59 {
        VarType::FirAssetValue
    } else if i == 60 {
        VarType::FirDataEntrySave
    } else {
        VarType::NoVar
    }
}

/// How a variable is combined when records are added: the maximum for the
/// peak-power and unbalance variables, the sum for every other one.
pub open spec fn default_sum_type(t: VarType) -> SumType {
    match t {
        VarType::MaxPosPowSub => SumType::Max,
        VarType::MaxNegPowSub => SumType::Max,
        VarType::MaxPosPowFeeder => SumType::Max,
        VarType::MaxNegPowFeeder => SumType::Max,
        VarType::MaxPosDiffFeeder => SumType::Max,
        VarType::MaxNegDiffFeeder => SumType::Max,
        VarType::UnbalPowRate => SumType::Max,
        _ => SumType::Sum,
    }
}

/// Every variable has a position below `VAR_COUNT`, and the position
/// determines the variable.
pub proof fn lemma_var_index_inverse(t: VarType)
    ensures
        var_index(t) < VAR_COUNT,
        var_at(var_index(t) as int) == t,
{
}

/// Each position below `VAR_COUNT` holds a variable whose position it is.
pub proof fn lemma_var_at_inverse(i: int)
    requires
        0 <= i < VAR_COUNT,
    ensures
        var_index(var_at(i)) == i,
{
}

/// Two variables at the same position are the same variable.
pub proof fn lemma_var_index_injective(a: VarType, b: VarType)
    ensures
        var_index(a) == var_index(b) <==> a == b,
{
    lemma_var_index_inverse(a);
    lemma_var_index_inverse(b);
}

impl VarType {
    /// The position of this variable in a record.
    pub fn tousz(&self) -> (r: usize)
        ensures
            r == var_index(*self),
    {
        match self {
            VarType::NoVar => 0,
            VarType::MaxPosPowSub => 1,
            VarType::MaxNegPowSub => 2,
            VarType::MaxPosPowFeeder => 3,
            VarType::MaxNegPowFeeder => 4,
            VarType::MaxPosDiffFeeder => 5,
            VarType::MaxNegDiffFeeder => 6,
            VarType::UnbalPowRate => 7,
            VarType::NewCarReg => 8,
            VarType::Gpp => 9,
            VarType::VsppMv => 10,
            VarType::SppHv => 11,
            VarType::BigLotMv => 12,
            VarType::BigLotHv => 13,
            VarType::SubPowCap => 14,
            VarType::SolarEnergy => 15,
            VarType::PkPowTr => 16,
            VarType::PwCapTr => 17,
            VarType::LvPowSatTr => 18,
            VarType::CntLvPowSatTr => 19,
            VarType::ChgStnCapTr => 20,
            VarType::ChgStnCap => 21,
            VarType::ChgStnSellTr => 22,
            VarType::ChgStnSell => 23,
            VarType::MvPowSatTr => 24,
            VarType::MvVspp => 25,
            VarType::HvSpp => 26,
            VarType::SmallSellTr => 27,
            VarType::SmallSell => 28,
            VarType::LargeSellTr => 29,
            VarType::LargeSell => 30,
            VarType::UnbalPowTr => 31,
            VarType::UnbalPow => 32,
            VarType::CntUnbalPow => 33,
            VarType::TakeNote => 34,
            VarType::Uc1Val => 35,
            VarType::Uc1Rank => 36,
            VarType::Uc2Val => 37,
            VarType::Uc2Rank => 38,
            VarType::Uc3Val => 39,
            VarType::Uc3Rank => 40,
            VarType::FirBilAccu => 41,
            VarType::FirCashFlow => 42,
            VarType::FirDRSave => 43,
            VarType::FirBatSubSave => 44,
            VarType::FirBatSvgSave => 45,
            VarType::FirBatEnerSave => 46,
            VarType::FirBatPriceDiff => 47,
            VarType::FirMetBoxSave => 48,
            VarType::FirLaborSave => 49,
            VarType::FirMetSell => 50,
            VarType::FirEMetSave => 51,
            VarType::FirMetReadSave => 52,
            VarType::FirMetDisSave => 53,
            VarType::FirTouSell => 54,
            VarType::FirTouReadSave => 55,
            VarType::FirTouUpdateSave => 56,
            VarType::FirOutLabSave => 57,
            VarType::FirComplainSave => 58,
            VarType::FirAssetValue => 59,
            VarType::FirDataEntrySave => 60,
        }
    }

    /// The variable stored at position `i` of a record.
    pub fn from_index(i: usize) -> (t: VarType)
        requires
            i < VAR_COUNT,
        ensures
            t == var_at(i as int),
    {
        match i {
            0 => VarType::NoVar,
            1 => VarType::MaxPosPowSub,
            2 => VarType::MaxNegPowSub,
            3 => VarType::MaxPosPowFeeder,
            4 => VarType::MaxNegPowFeeder,
            5 => VarType::MaxPosDiffFeeder,
            6 => VarType::MaxNegDiffFeeder,
            7 => VarType::UnbalPowRate,
            8 => VarType::NewCarReg,
            9 => VarType::Gpp,
            10 => VarType::VsppMv,
            11 => VarType::SppHv,
            12 => VarType::BigLotMv,
            13 => VarType::BigLotHv,
            14 => VarType::SubPowCap,
            15 => VarType::SolarEnergy,
            16 => VarType::PkPowTr,
            17 => VarType::PwCapTr,
            18 => VarType::LvPowSatTr,
            19 => VarType::CntLvPowSatTr,
            20 => VarType::ChgStnCapTr,
            21 => VarType::ChgStnCap,
            22 => VarType::ChgStnSellTr,
            23 => VarType::ChgStnSell,
            24 => VarType::MvPowSatTr,
            25 => VarType::MvVspp,
            26 => VarType::HvSpp,
            27 => VarType::SmallSellTr,
            28 => VarType::SmallSell,
            29 => VarType::LargeSellTr,
            30 => VarType::LargeSell,
            31 => VarType::UnbalPowTr,
            32 => VarType::UnbalPow,
            33 => VarType::CntUnbalPow,
            34 => VarType::TakeNote,
            35 => VarType::Uc1Val,
            36 => VarType::Uc1Rank,
            37 => VarType::Uc2Val,
            38 => VarType::Uc2Rank,
            39 => VarType::Uc3Val,
            40 => VarType::Uc3Rank,
            41 => VarType::FirBilAccu,
            42 => VarType::FirCashFlow,
            43 => VarType::FirDRSave,
            44 => VarType::FirBatSubSave,
            45 => VarType::FirBatSvgSave,
            46 => VarType::FirBatEnerSave,
            47 => VarType::FirBatPriceDiff,
            48 => VarType::FirMetBoxSave,
            49 => VarType::FirLaborSave,
            50 => VarType::FirMetSell,
            51 => VarType::FirEMetSave,
            52 => VarType::FirMetReadSave,
            53 => VarType::FirMetDisSave,
            54 => VarType::FirTouSell,
            55 => VarType::FirTouReadSave,
            56 => VarType::FirTouUpdateSave,
            57 => VarType::FirOutLabSave,
            58 => VarType::FirComplainSave,
            59 => VarType::FirAssetValue,
            60 => VarType::FirDataEntrySave,
            _ => VarType::NoVar,
        }
    }

    /// Every variable, in the order in which a record stores them.
    pub fn all() -> (r: Vec<VarType>)
        ensures
            r.len() == VAR_COUNT,
            forall|i: int| 0 <= i < VAR_COUNT ==> #[trigger] r[i] == var_at(i),
    {
        let mut r: Vec<VarType> = Vec::new();
        let mut i: usize = 0;
        while i < VAR_COUNT
            invariant
                i <= VAR_COUNT,
                r.len() == i,
                forall|k: int| 0 <= k < i ==> #[trigger] r[k] == var_at(k),
            decreases VAR_COUNT - i,
        {
            r.push(VarType::from_index(i));
            i = i + 1;
        }
        r
    }

    /// How this variable is combined when records are added.
    pub fn sum_type(&self) -> (s: SumType)
        ensures
            s == default_sum_type(*self),
    {
        match self {
            VarType::MaxPosPowSub => SumType::Max,
            VarType::MaxNegPowSub => SumType::Max,
            VarType::MaxPosPowFeeder => SumType::Max,
            VarType::MaxNegPowFeeder => SumType::Max,
            VarType::MaxPosDiffFeeder => SumType::Max,
            VarType::MaxNegDiffFeeder => SumType::Max,
            VarType::UnbalPowRate => SumType::Max,
            _ => SumType::Sum,
        }
    }
}

impl Default for VarType {
    fn default() -> (r: VarType)
        ensures
            r == VarType::NoVar,
    {
        VarType::NoVar
    }
}


/// The name of variable `t`: the name of its variant.
pub open spec fn var_name(t: VarType) -> &'static str {
    match t {
        VarType::NoVar => "NoVar",
        VarType::MaxPosPowSub => "MaxPosPowSub",
        VarType::MaxNegPowSub => "MaxNegPowSub",
        VarType::MaxPosPowFeeder => "MaxPosPowFeeder",
        VarType::MaxNegPowFeeder => "MaxNegPowFeeder",
        VarType::MaxPosDiffFeeder => "MaxPosDiffFeeder",
        VarType::MaxNegDiffFeeder => "MaxNegDiffFeeder",
        VarType::UnbalPowRate => "UnbalPowRate",
        VarType::NewCarReg => "NewCarReg",
        VarType::Gpp => "Gpp",
        VarType::VsppMv => "VsppMv",
        VarType::SppHv => "SppHv",
        VarType::BigLotMv => "BigLotMv",
        VarType::BigLotHv => "BigLotHv",
        VarType::SubPowCap => "SubPowCap",
        VarType::SolarEnergy => "SolarEnergy",
        VarType::PkPowTr => "PkPowTr",
        VarType::PwCapTr => "PwCapTr",
        VarType::LvPowSatTr => "LvPowSatTr",
        VarType::CntLvPowSatTr => "CntLvPowSatTr",
        VarType::ChgStnCapTr => "ChgStnCapTr",
        VarType::ChgStnCap => "ChgStnCap",
        VarType::ChgStnSellTr => "ChgStnSellTr",
        VarType::ChgStnSell => "ChgStnSell",
        VarType::MvPowSatTr => "MvPowSatTr",
        VarType::MvVspp => "MvVspp",
        VarType::HvSpp => "HvSpp",
        VarType::SmallSellTr => "SmallSellTr",
        VarType::SmallSell => "SmallSell",
        VarType::LargeSellTr => "LargeSellTr",
        VarType::LargeSell => "LargeSell",
        VarType::UnbalPowTr => "UnbalPowTr",
        VarType::UnbalPow => "UnbalPow",
        VarType::CntUnbalPow => "CntUnbalPow",
        VarType::TakeNote => "TakeNote",
        VarType::Uc1Val => "Uc1Val",
        VarType::Uc1Rank => "Uc1Rank",
        VarType::Uc2Val => "Uc2Val",
        VarType::Uc2Rank => "Uc2Rank",
        VarType::Uc3Val => "Uc3Val",
        VarType::Uc3Rank => "Uc3Rank",
        VarType::FirBilAccu => "FirBilAccu",
        VarType::FirCashFlow => "FirCashFlow",
        VarType::FirDRSave => "FirDRSave",
        VarType::FirBatSubSave => "FirBatSubSave",
        VarType::FirBatSvgSave => "FirBatSvgSave",
        VarType::FirBatEnerSave => "FirBatEnerSave",
        VarType::FirBatPriceDiff => "FirBatPriceDiff",
        VarType::FirMetBoxSave => "FirMetBoxSave",
        VarType::FirLaborSave => "FirLaborSave",
        VarType::FirMetSell => "FirMetSell",
        VarType::FirEMetSave => "FirEMetSave",
        VarType::FirMetReadSave => "FirMetReadSave",
        VarType::FirMetDisSave => "FirMetDisSave",
        VarType::FirTouSell => "FirTouSell",
        VarType::FirTouReadSave => "FirTouReadSave",
        VarType::FirTouUpdateSave => "FirTouUpdateSave",
        VarType::FirOutLabSave => "FirOutLabSave",
        VarType::FirComplainSave => "FirComplainSave",
        VarType::FirAssetValue => "FirAssetValue",
        VarType::FirDataEntrySave => "FirDataEntrySave",
    }
}

impl VarType {
    /// The name of this variable: the name of its variant.
    pub fn name(&self) -> (r: &'static str)
        ensures
            r@ == var_name(*self)@,
    {
        match self {
            VarType::NoVar => "NoVar",
            VarType::MaxPosPowSub => "MaxPosPowSub",
            VarType::MaxNegPowSub => "MaxNegPowSub",
            VarType::MaxPosPowFeeder => "MaxPosPowFeeder",
            VarType::MaxNegPowFeeder => "MaxNegPowFeeder",
            VarType::MaxPosDiffFeeder => "MaxPosDiffFeeder",
            VarType::MaxNegDiffFeeder => "MaxNegDiffFeeder",
            VarType::UnbalPowRate => "UnbalPowRate",
            VarType::NewCarReg => "NewCarReg",
            VarType::Gpp => "Gpp",
            VarType::VsppMv => "VsppMv",
            VarType::SppHv => "SppHv",
            VarType::BigLotMv => "BigLotMv",
            VarType::BigLotHv => "BigLotHv",
            VarType::SubPowCap => "SubPowCap",
            VarType::SolarEnergy => "SolarEnergy",
            VarType::PkPowTr => "PkPowTr",
            VarType::PwCapTr => "PwCapTr",
            VarType::LvPowSatTr => "LvPowSatTr",
            VarType::CntLvPowSatTr => "CntLvPowSatTr",
            VarType::ChgStnCapTr => "ChgStnCapTr",
            VarType::ChgStnCap => "ChgStnCap",
            VarType::ChgStnSellTr => "ChgStnSellTr",
            VarType::ChgStnSell => "ChgStnSell",
            VarType::MvPowSatTr => "MvPowSatTr",
            VarType::MvVspp => "MvVspp",
            VarType::HvSpp => "HvSpp",
            VarType::SmallSellTr => "SmallSellTr",
            VarType::SmallSell => "SmallSell",
            VarType::LargeSellTr => "LargeSellTr",
            VarType::LargeSell => "LargeSell",
            VarType::UnbalPowTr => "UnbalPowTr",
            VarType::UnbalPow => "UnbalPow",
            VarType::CntUnbalPow => "CntUnbalPow",
            VarType::TakeNote => "TakeNote",
            VarType::Uc1Val => "Uc1Val",
            VarType::Uc1Rank => "Uc1Rank",
            VarType::Uc2Val => "Uc2Val",
            VarType::Uc2Rank => "Uc2Rank",
            VarType::Uc3Val => "Uc3Val",
            VarType::Uc3Rank => "Uc3Rank",
            VarType::FirBilAccu => "FirBilAccu",
            VarType::FirCashFlow => "FirCashFlow",
            VarType::FirDRSave => "FirDRSave",
            VarType::FirBatSubSave => "FirBatSubSave",
            VarType::FirBatSvgSave => "FirBatSvgSave",
            VarType::FirBatEnerSave => "FirBatEnerSave",
            VarType::FirBatPriceDiff => "FirBatPriceDiff",
            VarType::FirMetBoxSave => "FirMetBoxSave",
            VarType::FirLaborSave => "FirLaborSave",
            VarType::FirMetSell => "FirMetSell",
            VarType::FirEMetSave => "FirEMetSave",
            VarType::FirMetReadSave => "FirMetReadSave",
            VarType::FirMetDisSave => "FirMetDisSave",
            VarType::FirTouSell => "FirTouSell",
            VarType::FirTouReadSave => "FirTouReadSave",
            VarType::FirTouUpdateSave => "FirTouUpdateSave",
            VarType::FirOutLabSave => "FirOutLabSave",
            VarType::FirComplainSave => "FirComplainSave",
            VarType::FirAssetValue => "FirAssetValue",
            VarType::FirDataEntrySave => "FirDataEntrySave",
        }
    }
}

/// The number of benefit fields.
pub const FIR_COUNT: usize = 20;

/// The `i`-th benefit field: the benefit fields are the last `FIR_COUNT`
/// variables, from `FirBilAccu` on.
pub open spec fn fir_at(i: int) -> VarType {
    var_at(var_index(VarType::FirBilAccu) + i)
}

/// The benefit fields, in order.
pub fn fir_list() -> (r: Vec<VarType>)
    ensures
        r.len() == FIR_COUNT,
        forall|i: int| 0 <= i < FIR_COUNT ==> #[trigger] r[i] == fir_at(i),
{
    let first: usize = VarType::FirBilAccu.tousz();
    let mut r: Vec<VarType> = Vec::new();
    let mut i: usize = 0;
    while i < FIR_COUNT
        invariant
            first == var_index(VarType::FirBilAccu),
            i <= FIR_COUNT,
            r.len() == i,
            forall|k: int| 0 <= k < i ==> #[trigger] r[k] == fir_at(k),
        decreases FIR_COUNT - i,
    {
        r.push(VarType::from_index(first + i));
        i = i + 1;
    }
    r
}


/// The peak powers of substations and feeders, the feeders' peak
/// differences and the unbalance rate are combined by the maximum; every
/// other variable is combined by the sum.
pub proof fn lemma_combination_rules(t: VarType)
    ensures
        default_sum_type(t) == (if t == VarType::MaxPosPowSub || t == VarType::MaxNegPowSub
            || t == VarType::MaxPosPowFeeder || t == VarType::MaxNegPowFeeder || t == VarType::MaxPosDiffFeeder
            || t == VarType::MaxNegDiffFeeder || t == VarType::UnbalPowRate {
            SumType::Max
        } else {
            SumType::Sum
        }),
{
}


/// The benefit fields, in the order in which the benefit projections of a
/// substation are given: billing accuracy, cash flow, demand-response
/// savings, the four battery benefits (substation, saving, energy, price
/// difference), meter-box savings, labour savings, meter sales, e-meter
/// savings, meter-reading savings, disconnection savings, TOU sales, TOU
/// reading and updating savings, outage labour, complaint savings, asset
/// value and data-entry savings.
pub proof fn lemma_benefit_fields()
    ensures
        FIR_COUNT == 20,
        fir_at(0) == VarType::FirBilAccu,
        fir_at(1) == VarType::FirCashFlow,
        fir_at(2) == VarType::FirDRSave,
        fir_at(3) == VarType::FirBatSubSave,
        fir_at(4) == VarType::FirBatSvgSave,
        fir_at(5) == VarType::FirBatEnerSave,
        fir_at(6) == VarType::FirBatPriceDiff,
        fir_at(7) == VarType::FirMetBoxSave,
        fir_at(8) == VarType::FirLaborSave,
        fir_at(9) == VarType::FirMetSell,
        fir_at(10) == VarType::FirEMetSave,
        fir_at(11) == VarType::FirMetReadSave,
        fir_at(12) == VarType::FirMetDisSave,
        fir_at(13) == VarType::FirTouSell,
        fir_at(14) == VarType::FirTouReadSave,
        fir_at(15) == VarType::FirTouUpdateSave,
        fir_at(16) == VarType::FirOutLabSave,
        fir_at(17) == VarType::FirComplainSave,
        fir_at(18) == VarType::FirAssetValue,
        fir_at(19) == VarType::FirDataEntrySave,
{
}

} // verus!
