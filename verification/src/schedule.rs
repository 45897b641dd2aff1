//! The shapes of cost schedules and yearly benefit projections.

use vstd::prelude::*;

verus! {

/// The first year of a benefit projection.
pub const PROJ_FIRST_YEAR: u32 = 2028;

/// The number of years of a benefit projection.
pub const PROJ_YEARS: u32 = 12;

/// An installation cost paid in three equal yearly parts.
pub fn install_schedule<T: Copy>(part: T) -> (r: Vec<T>)
    ensures
        r@ == seq![part, part, part],
{
    let mut r: Vec<T> = Vec::new();
    let mut i: usize = 0;
    while i < 3
        invariant
            i <= 3,
            r.len() == i,
            forall|k: int| 0 <= k < i ==> #[trigger] r[k] == part,
        decreases 3 - i,
    {
        r.push(part);
        i = i + 1;
    }
    assert(r@ =~= seq![part, part, part]);
    r
}

/// An operating cost: nothing in the three installation years, then the
/// same cost in each of the twelve operating years.
pub fn operation_schedule<T: Copy>(zero: T, yearly: T) -> (r: Vec<T>)
    ensures
        r.len() == 15,
        forall|k: int| 0 <= k < 3 ==> #[trigger] r[k] == zero,
        forall|k: int| 3 <= k < 15 ==> #[trigger] r[k] == yearly,
{
    let mut r: Vec<T> = Vec::new();
    r.push(zero);
    r.push(zero);
    r.push(zero);
    let mut i: usize = 0;
    while i < 12
        invariant
            i <= 12,
            r.len() == 3 + i,
            forall|k: int| 0 <= k < 3 ==> #[trigger] r[k] == zero,
            forall|k: int| 3 <= k < 3 + i ==> #[trigger] r[k] == yearly,
        decreases 12 - i,
    {
        r.push(yearly);
        i = i + 1;
    }
    r
}

/// A schedule with nothing to pay: a single zero.
pub fn nil_schedule<T: Copy>(zero: T) -> (r: Vec<T>)
    ensures
        r@ == seq![zero],
{
    let mut r: Vec<T> = Vec::new();
    r.push(zero);
    assert(r@ =~= seq![zero]);
    r
}

/// The years `start ..= end`, each paired with `zero`.
pub fn zero_projection<T: Copy>(start: u32, end: u32, zero: T) -> (r: Vec<(u32, T)>)
    ensures
        start <= end ==> r.len() == end - start + 1,
        start > end ==> r.len() == 0,
        forall|k: int| 0 <= k < r.len() ==> (#[trigger] r[k]).0 == start + k && r[k].1 == zero,
{
    let mut r: Vec<(u32, T)> = Vec::new();
    if start > end {
        return r;
    }
    let mut y: u32 = start;
    loop
        invariant
            start <= y <= end,
            r.len() == y - start,
            forall|k: int| 0 <= k < r.len() ==> (#[trigger] r[k]).0 == start + k && r[k].1 == zero,
        decreases end - y,
    {
        r.push((y, zero));
        if y == end {
            return r;
        }
        y = y + 1;
    }
}

/// The projection years from `PROJ_FIRST_YEAR`, paired with `values` in
/// order.
pub fn year_projection<T: Copy>(values: &Vec<T>) -> (r: Vec<(u32, T)>)
    requires
        values.len() + PROJ_FIRST_YEAR <= u32::MAX + 1,
    ensures
        r.len() == values.len(),
        forall|k: int| 0 <= k < r.len() ==> (#[trigger] r[k]).0 == PROJ_FIRST_YEAR + k && r[k].1 == values[k],
{
    let mut r: Vec<(u32, T)> = Vec::new();
    let mut i: usize = 0;
    while i < values.len()
        invariant
            values.len() + PROJ_FIRST_YEAR <= u32::MAX + 1,
            i <= values.len(),
            r.len() == i,
            forall|k: int| 0 <= k < i ==> (#[trigger] r[k]).0 == PROJ_FIRST_YEAR + k && r[k].1 == values[k],
        decreases values.len() - i,
    {
        let y: u32 = PROJ_FIRST_YEAR + i as u32;
        r.push((y, values[i]));
        i = i + 1;
    }
    r
}

/// A projection in which the whole amount `last` comes in the final year:
/// every earlier projection year holds `zero`.
pub fn final_year_projection<T: Copy>(zero: T, last: T) -> (r: Vec<(u32, T)>)
    ensures
        r.len() == PROJ_YEARS,
        forall|k: int| 0 <= k < PROJ_YEARS ==> (#[trigger] r[k]).0 == PROJ_FIRST_YEAR + k,
        forall|k: int| 0 <= k < PROJ_YEARS - 1 ==> (#[trigger] r[k]).1 == zero,
        r[PROJ_YEARS - 1].1 == last,
{
    let mut r: Vec<(u32, T)> = Vec::new();
    let mut y: u32 = 0;
    while y < PROJ_YEARS - 1
        invariant
            y <= PROJ_YEARS - 1,
            r.len() == y,
            forall|k: int| 0 <= k < y ==> (#[trigger] r[k]).0 == PROJ_FIRST_YEAR + k && r[k].1 == zero,
        decreases PROJ_YEARS - 1 - y,
    {
        r.push((y + PROJ_FIRST_YEAR, zero));
        y = y + 1;
    }
    r.push((PROJ_YEARS - 1 + PROJ_FIRST_YEAR, last));
    r
}

/// The amounts of a projection, year by year.
pub fn projection_values<T: Copy>(proj: &Vec<(u32, T)>) -> (r: Vec<T>)
    ensures
        r.len() == proj.len(),
        forall|k: int| 0 <= k < r.len() ==> #[trigger] r[k] == proj[k].1,
{
    let mut r: Vec<T> = Vec::new();
    let mut i: usize = 0;
    while i < proj.len()
        invariant
            i <= proj.len(),
            r.len() == i,
            forall|k: int| 0 <= k < i ==> #[trigger] r[k] == proj[k].1,
        decreases proj.len() - i,
    {
        r.push(proj[i].1);
        i = i + 1;
    }
    r
}

} // verus!
