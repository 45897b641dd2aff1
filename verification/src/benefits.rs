//! The yearly benefit projections of a substation record.

use vstd::prelude::*;
use crate::vartype::{fir_at, fir_list, var_index, VarType, FIR_COUNT, VAR_COUNT};
use crate::record::{same_labels, PeaAssVar};

verus! {

/// `ny` is `vy` with the `k`-th of `projs` appended to the row of the `k`-th
/// benefit field, for each of the first `FIR_COUNT` of them; the rows before
/// the benefit fields stay.
pub open spec fn projections_appended<T>(vy: Seq<Vec<T>>, projs: Seq<Vec<T>>, ny: Seq<Vec<T>>) -> bool {
    &&& ny.len() == vy.len()
    &&& forall|k: int| 0 <= k < FIR_COUNT && k < projs.len() ==>
        (#[trigger] ny[var_index(fir_at(k)) as int])@ == vy[var_index(fir_at(k)) as int]@ + projs[k]@
    &&& forall|k: int| 0 <= k < FIR_COUNT && k >= projs.len() ==>
        #[trigger] ny[var_index(fir_at(k)) as int] == vy[var_index(fir_at(k)) as int]
    &&& forall|i: int| 0 <= i < var_index(fir_at(0)) ==> #[trigger] ny[i] == vy[i]
}

impl<T: Copy, A> PeaAssVar<T, A> {
    /// Appends the `k`-th of `projs` to the projection of the `k`-th benefit
    /// field, for each of the first `FIR_COUNT` of them.
    pub fn append_projections(&mut self, projs: &Vec<Vec<T>>)
        requires
            old(self).vy.len() >= VAR_COUNT,
        ensures
            same_labels(*old(self), *final(self)),
            final(self).set == old(self).set,
            final(self).res == old(self).res,
            final(self).v == old(self).v,
            projections_appended(old(self).vy@, projs@, final(self).vy@),
    {
        let firs = fir_list();
        proof {
            assert forall|j: int| 0 <= j < FIR_COUNT implies var_index(#[trigger] fir_at(j)) == var_index(fir_at(0)) + j by {
                crate::vartype::lemma_var_at_inverse(var_index(VarType::FirBilAccu) + j);
                crate::vartype::lemma_var_at_inverse(var_index(VarType::FirBilAccu) as int);
            }
        }
        let ghost y0 = self.vy@;
        let mut k: usize = 0;
        while k < FIR_COUNT && k < projs.len()
            invariant
                k <= FIR_COUNT,
                k <= projs.len(),
                firs.len() == FIR_COUNT,
                forall|j: int| 0 <= j < FIR_COUNT ==> #[trigger] firs[j] == fir_at(j),
                self.vy.len() == y0.len(),
                y0.len() >= VAR_COUNT,
                y0 == old(self).vy@,
                same_labels(*old(self), *self),
                self.set == old(self).set,
                self.res == old(self).res,
                self.v == old(self).v,
                forall|j: int| 0 <= j < FIR_COUNT ==> var_index(#[trigger] fir_at(j)) == var_index(fir_at(0)) + j,
                forall|j: int| 0 <= j < k ==> (#[trigger] self.vy@[var_index(fir_at(j)) as int])@
                    == y0[var_index(fir_at(j)) as int]@ + projs@[j]@,
                forall|j: int| k <= j < FIR_COUNT ==> #[trigger] self.vy@[var_index(fir_at(j)) as int]
                    == y0[var_index(fir_at(j)) as int],
                forall|i: int| 0 <= i < var_index(fir_at(0)) ==> #[trigger] self.vy@[i] == y0[i],
            decreases FIR_COUNT - k,
        {
            let idx: usize = firs[k].tousz();
            let mut row = crate::ops::copy_values(&self.vy[idx]);
            let mut i: usize = 0;
            let ghost r0 = row@;
            while i < projs[k].len()
                invariant
                    k < projs.len(),
                    i <= projs@[k as int].len(),
                    row@ == r0 + projs@[k as int]@.take(i as int),
                decreases projs@[k as int].len() - i,
            {
                row.push(projs[k][i]);
                i = i + 1;
                assert(row@ =~= r0 + projs@[k as int]@.take(i as int));
            }
            assert(projs@[k as int]@.take(projs@[k as int].len() as int) =~= projs@[k as int]@);
            self.vy.set(idx, row);
            k = k + 1;
        }
    }
}

} // verus!
