//! Partitioning a round's fills into bounded batches, each assigned a
//! submitting identity.
//!
//! Batches chunk the fill list sequentially without reordering: every batch
//! but the last holds exactly `batch_size` fills, the last holds the
//! remainder. Identity assignment is a pure function of the batch index:
//! batch 0 submits under the primary identity, the next batches under the
//! secondary identities in order, and any batch beyond the pool wraps back
//! to the primary.

use vstd::prelude::*;

use crate::order::{fill_views, Fill, FillModel};

verus! {

/// Concatenation of a sequence of fill batches, in order.
pub open spec fn concat_batches(s: Seq<Seq<FillModel>>) -> Seq<FillModel>
    decreases s.len(),
{
    if s.len() == 0 {
        Seq::<FillModel>::empty()
    } else {
        concat_batches(s.drop_last()) + s.last()
    }
}

/// The identity that submits the batch at `index`: 0 names the primary
/// identity, 1 up to `secondary_count` name the secondary identities.
/// Batch 0 goes to the primary; batch k, for k up to the number of
/// secondaries, goes to secondary k; every later batch falls back to the
/// primary. A pure function of the batch index, independent of content.
pub open spec fn identity_spec(index: int, secondary_count: int) -> int {
    if index == 0 {
        0
    } else if index <= secondary_count {
        index
    } else {
        0
    }
}

/// A bounded group of fills submitted together under one identity.
pub struct Batch {
    pub fills: Vec<Fill>,
    pub identity: usize,
}

/// The fill models of each batch of a sequence of batches.
pub open spec fn batch_fill_views(s: Seq<Batch>) -> Seq<Seq<FillModel>> {
    s.map_values(|b: Batch| fill_views(b.fills@))
}

/// The identity that submits the batch at `index`.
pub fn identity_for_batch(index: usize, secondary_count: usize) -> (r: usize)
    ensures
        r as int == identity_spec(index as int, secondary_count as int),
{
    if index == 0 {
        0
    } else if index <= secondary_count {
        index
    } else {
        0
    }
}

/// Partitions the fills, in order, into batches of at most `batch_size`
/// (exactly `batch_size` for every batch but the last), assigning each batch
/// its identity. Concatenating the batches' fills reconstructs the fill list
/// exactly: nothing is dropped, duplicated or reordered.
pub fn plan_batches(fills: Vec<Fill>, batch_size: usize, secondary_count: usize) -> (r: Vec<
    Batch,
>)
    requires
        batch_size >= 1,
    ensures
        concat_batches(batch_fill_views(r@)) == fill_views(fills@),
        forall|k: int| 0 <= k < r@.len() ==> 1 <= #[trigger] r@[k].fills@.len() <= batch_size,
        forall|k: int| 0 <= k < r@.len() - 1 ==> #[trigger] r@[k].fills@.len() == batch_size,
        forall|k: int|
            0 <= k < r@.len() ==> #[trigger] r@[k].identity as int == identity_spec(
                k,
                secondary_count as int,
            ),
        r@.len() == 0 <==> fills@.len() == 0,
{
    let mut batches: Vec<Batch> = Vec::new();
    let mut i: usize = 0;
    proof {
        assert(concat_batches(batch_fill_views(batches@)) =~= fill_views(fills@.take(0)));
    }
    while i < fills.len()
        invariant
            batch_size >= 1,
            i <= fills@.len(),
            concat_batches(batch_fill_views(batches@)) == fill_views(fills@.take(i as int)),
            forall|k: int|
                0 <= k < batches@.len() ==> 1 <= #[trigger] batches@[k].fills@.len() <= batch_size,
            forall|k: int|
                0 <= k < batches@.len() - 1 ==> #[trigger] batches@[k].fills@.len() == batch_size,
            forall|k: int|
                0 <= k < batches@.len() ==> #[trigger] batches@[k].identity as int == identity_spec(
                    k,
                    secondary_count as int,
                ),
            batches@.len() == 0 ==> i == 0,
            fills@.len() == 0 ==> batches@.len() == 0,
            i < fills@.len() && batches@.len() >= 1 ==> batches@.last().fills@.len() == batch_size,
        decreases fills@.len() - i,
    {
        let ghost batches0 = batches@;
        let ghost i0 = i as int;
        let ident = identity_for_batch(batches.len(), secondary_count);
        let mut batch: Vec<Fill> = Vec::new();
        batch.push(fills[i].clone());
        i = i + 1;
        let mut j: usize = 1;
        proof {
            assert(fill_views(batch@) =~= fill_views(fills@.subrange(i0, i as int)));
        }
        while j < batch_size && i < fills.len()
            invariant
                1 <= j <= batch_size,
                i as int == i0 + j,
                0 <= i0,
                i <= fills@.len(),
                j == batch@.len(),
                fill_views(batch@) == fill_views(fills@.subrange(i0, i as int)),
            decreases batch_size - j,
        {
            let ghost batch0 = batch@;
            batch.push(fills[i].clone());
            i = i + 1;
            j = j + 1;
            proof {
                assert(batch@.drop_last() =~= batch0);
                assert(fills@.subrange(i0, i as int).drop_last() =~= fills@.subrange(
                    i0,
                    i as int - 1,
                ));
                assert(batch@.last()@ == fills@[i as int - 1]@);
                assert forall|k: int| 0 <= k < batch@.len() implies #[trigger] batch@[k]@
                    == fills@.subrange(i0, i as int)[k]@ by {
                    if k < batch@.len() - 1 {
                        assert(batch@[k] == batch0[k]);
                        assert(fill_views(batch0)[k] == fill_views(
                            fills@.subrange(i0, i as int - 1),
                        )[k]);
                        assert(fills@.subrange(i0, i as int - 1)[k] == fills@[i0 + k]);
                        assert(fills@.subrange(i0, i as int)[k] == fills@[i0 + k]);
                    }
                }
                assert(fill_views(batch@) =~= fill_views(fills@.subrange(i0, i as int)));
            }
        }
        let ghost bv = batch@;
        batches.push(Batch { fills: batch, identity: ident });
        proof {
            assert(batch_fill_views(batches@).drop_last() =~= batch_fill_views(batches0));
            assert(batch_fill_views(batches@).last() == fill_views(bv));
            assert(fill_views(fills@.take(i0)) + fill_views(fills@.subrange(i0, i as int))
                =~= fill_views(fills@.take(i as int)));
        }
    }
    proof {
        assert(fills@.take(fills@.len() as int) =~= fills@);
    }
    batches
}

} // verus!
