//! The twelve benefit figures of a substation and their total.

use vstd::prelude::*;
use crate::ops::{deterministic2, fold_from, is_fold, lemma_fold_determined, total2};

verus! {

/// The benefit figures of a substation: five for electric vehicles, three
/// for renewables, four for energy, and their total.
#[derive(Clone, Copy, Debug)]
pub struct SubAssObj2<T> {
    pub ev1: T,
    pub ev2: T,
    pub ev3: T,
    pub ev4: T,
    pub ev5: T,
    pub re1: T,
    pub re2: T,
    pub re3: T,
    pub en1: T,
    pub en2: T,
    pub en3: T,
    pub en4: T,
    pub sum: T,
}

/// The figures after the first, in the order in which they are added.
pub open spec fn figures_after_first<T>(o: SubAssObj2<T>) -> Seq<T> {
    seq![o.ev2, o.ev3, o.ev4, o.ev5, o.re1, o.re2, o.re3, o.en1, o.en2, o.en3, o.en4]
}

impl<T: Copy> SubAssObj2<T> {
    /// Sets the total to `ev1 + ev2 + ... + en4`, added from left to right.
    pub fn sum<P: Fn(T, T) -> T>(&mut self, plus: &P)
        requires
            total2(*plus),
        ensures
            *final(self) == (SubAssObj2 { sum: final(self).sum, ..*old(self) }),
            is_fold(*plus, old(self).ev1, figures_after_first(*old(self)), final(self).sum),
    {
        let rest = vec![
            self.ev2, self.ev3, self.ev4, self.ev5, self.re1, self.re2, self.re3, self.en1,
            self.en2, self.en3, self.en4,
        ];
        assert(rest@ =~= figures_after_first(*self));
        self.sum = fold_from(self.ev1, &rest, plus);
    }
}


/// Totalling the figures a second time changes nothing, where the addition
/// gives one outcome for given arguments: `o1` is `o` after `sum`, `o2` is
/// `o1` after `sum`.
pub proof fn lemma_sum_settled<T, P: Fn(T, T) -> T>(o: SubAssObj2<T>, o1: SubAssObj2<T>, o2: SubAssObj2<T>, plus: P)
    requires
        deterministic2(plus),
        o1 == (SubAssObj2 { sum: o1.sum, ..o }),
        is_fold(plus, o.ev1, figures_after_first(o), o1.sum),
        o2 == (SubAssObj2 { sum: o2.sum, ..o1 }),
        is_fold(plus, o1.ev1, figures_after_first(o1), o2.sum),
    ensures
        o2 == o1,
{
    assert(figures_after_first(o1) =~= figures_after_first(o));
    lemma_fold_determined(plus, o.ev1, figures_after_first(o), o1.sum, o2.sum);
}

} // verus!
