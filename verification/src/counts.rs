//! Counting the devices of a substation: transformers and meters.

use vstd::prelude::*;

verus! {

/// The sum of `xs`.
pub open spec fn seq_sum(xs: Seq<u32>) -> int
    decreases xs.len(),
{
    if xs.len() == 0 {
        0
    } else {
        seq_sum(xs.drop_last()) + xs.last()
    }
}

/// The sum of `xs`, which must fit in a `u32`.
pub fn sum_counts(xs: &Vec<u32>) -> (r: u32)
    requires
        seq_sum(xs@) <= u32::MAX,
    ensures
        r == seq_sum(xs@),
{
    let mut r: u32 = 0;
    let mut i: usize = 0;
    while i < xs.len()
        invariant
            i <= xs.len(),
            r == seq_sum(xs@.take(i as int)),
            seq_sum(xs@) <= u32::MAX,
        decreases xs.len() - i,
    {
        assert(xs@.take(i + 1).drop_last() =~= xs@.take(i as int));
        proof {
            lemma_seq_sum_prefix(xs@, i + 1);
        }
        r = r + xs[i];
        i = i + 1;
    }
    assert(xs@.take(xs.len() as int) =~= xs@);
    r
}

/// A prefix sums to no more than the whole.
pub proof fn lemma_seq_sum_prefix(xs: Seq<u32>, k: int)
    requires
        0 <= k <= xs.len(),
    ensures
        0 <= seq_sum(xs.take(k)) <= seq_sum(xs),
    decreases xs.len(),
{
    if xs.len() > 0 {
        if k == xs.len() {
            assert(xs.take(k) =~= xs);
            lemma_seq_sum_prefix(xs.drop_last(), k - 1);
        } else {
            assert(xs.take(k) =~= xs.drop_last().take(k));
            lemma_seq_sum_prefix(xs.drop_last(), k);
        }
    }
}

/// The number of transformers of a substation: those of the utility
/// (`p_tx`, one count per feeder) and those of customers (`c_tx`).
pub fn transformer_count(p_tx: &Vec<u32>, c_tx: &Vec<u32>) -> (r: u32)
    requires
        seq_sum(p_tx@) + seq_sum(c_tx@) <= u32::MAX,
    ensures
        r == seq_sum(p_tx@) + seq_sum(c_tx@),
{
    proof {
        lemma_seq_sum_prefix(p_tx@, 0);
        lemma_seq_sum_prefix(c_tx@, 0);
        assert(p_tx@.take(0) =~= Seq::<u32>::empty());
        assert(c_tx@.take(0) =~= Seq::<u32>::empty());
    }
    let p: u32 = sum_counts(p_tx);
    let c: u32 = sum_counts(c_tx);
    p + c
}

/// The number of devices of a substation: its transformers and its single-
/// and three-phase meters.
pub fn device_count(p_tx: &Vec<u32>, c_tx: &Vec<u32>, mt_1_ph: u32, mt_3_ph: u32) -> (r: u32)
    requires
        seq_sum(p_tx@) + seq_sum(c_tx@) + mt_1_ph + mt_3_ph <= u32::MAX,
    ensures
        r == seq_sum(p_tx@) + seq_sum(c_tx@) + mt_1_ph + mt_3_ph,
{
    proof {
        lemma_seq_sum_prefix(p_tx@, 0);
        lemma_seq_sum_prefix(c_tx@, 0);
        assert(p_tx@.take(0) =~= Seq::<u32>::empty());
        assert(c_tx@.take(0) =~= Seq::<u32>::empty());
    }
    let t: u32 = transformer_count(p_tx, c_tx);
    t + mt_1_ph + mt_3_ph
}


/// The sum of one count is that count, and the sum of two runs of counts
/// one after the other is the sum of their sums.
pub proof fn lemma_seq_sum_concat(a: Seq<u32>, b: Seq<u32>, x: u32)
    ensures
        seq_sum(Seq::empty()) == 0,
        seq_sum(seq![x]) == x,
        seq_sum(a + b) == seq_sum(a) + seq_sum(b),
    decreases b.len(),
{
    assert(seq![x].drop_last() =~= Seq::<u32>::empty());
    if b.len() > 0 {
        lemma_seq_sum_concat(a, b.drop_last(), x);
        assert((a + b).drop_last() =~= a + b.drop_last());
        assert((a + b).last() == b.last());
    } else {
        assert(a + b =~= a);
    }
}

} // verus!
