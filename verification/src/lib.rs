//! Aggregation of the assessment variables of substations and provinces.

pub mod vartype;
pub mod ops;
pub mod assvar;
pub mod record;
pub mod subobj;
pub mod engine;
pub mod recalc;
pub mod rank;
pub mod aoj;
pub mod san;
pub mod schedule;
pub mod counts;
pub mod web;
pub mod benefits;
pub mod stage;
