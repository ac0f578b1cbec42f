//! Per-round orchestration decisions: the matched total, the round metrics
//! record, and the commit-or-abort evaluation of the batch outcomes.
//!
//! A round either fully resolves its snapshot or fails as a whole: the book
//! is cleared and exactly one metrics record is emitted when every batch
//! confirmed, and neither happens when any batch failed.

use vstd::prelude::*;

use crate::dispatch::{batch_fill_views, concat_batches, identity_spec, plan_batches, Batch};
use crate::matcher::{match_orders, match_rec};
use crate::order::{fill_views, order_views, sum_fill_amounts, Fill, FillModel, Order};

verus! {

/// One round's metrics record, created once per successful round and
/// immutable once handed to the reporter.
pub struct RoundMetrics {
    pub total_amount: u128,
    pub fill_count: usize,
    pub match_time_ms: i64,
    pub post_time_ms: i64,
    pub receive_time_ms: i64,
    pub resting_buy_count: usize,
    pub resting_sell_count: usize,
}

/// Outcome of one batch submission: confirmed on the settlement layer, or
/// failed with the submission error's message.
pub enum BatchStatus {
    Confirmed,
    Failed(String),
}

/// Index of the first batch at or after `i` that did not confirm, if any.
pub open spec fn first_failure_from(s: Seq<BatchStatus>, i: int) -> Option<int>
    decreases s.len() - i,
{
    if i < 0 || i >= s.len() {
        None
    } else if !(s[i] is Confirmed) {
        Some(i)
    } else {
        first_failure_from(s, i + 1)
    }
}

/// What the orchestrator does with a finished round: commit — clear the
/// book's snapshot and emit the metrics record — or abort with the first
/// failure's message, clearing nothing and emitting nothing.
pub enum RoundDecision {
    Commit,
    Abort(String),
}

/// Evaluates the batch outcomes of one round. The round commits exactly when
/// every batch confirmed; any failure aborts the round with the first failed
/// batch's message.
pub fn decide_round(results: &Vec<BatchStatus>) -> (r: RoundDecision)
    ensures
        (r is Commit) <==> (first_failure_from(results@, 0) is None),
        (first_failure_from(results@, 0) matches Some(i) ==> (r matches RoundDecision::Abort(m)
            && results@[i] matches BatchStatus::Failed(e) && m@ == e@)),
{
    let mut i: usize = 0;
    while i < results.len()
        invariant
            i <= results@.len(),
            first_failure_from(results@, 0) == first_failure_from(results@, i as int),
        decreases results@.len() - i,
    {
        match &results[i] {
            BatchStatus::Confirmed => {
                i = i + 1;
            },
            BatchStatus::Failed(e) => {
                return RoundDecision::Abort(e.clone());
            },
        }
    }
    RoundDecision::Commit
}

/// The total amount matched across the fills, or nothing when that total
/// does not fit the amount type.
pub fn total_matched(fills: &Vec<Fill>) -> (r: Option<u128>)
    ensures
        (r matches Some(t) ==> t as int == sum_fill_amounts(fill_views(fills@))),
        (r is None) <==> sum_fill_amounts(fill_views(fills@)) > u128::MAX,
{
    let ghost fv = fill_views(fills@);
    let mut total: u128 = 0;
    let mut i: usize = 0;
    proof {
        assert(fv.take(0) =~= Seq::<FillModel>::empty());
    }
    while i < fills.len()
        invariant
            i <= fills@.len(),
            fv == fill_views(fills@),
            total as int == sum_fill_amounts(fv.take(i as int)),
        decreases fills@.len() - i,
    {
        let amount = fills[i].amount;
        proof {
            lemma_sum_fill_take_step(fv, i as int);
        }
        match total.checked_add(amount) {
            Some(t) => {
                total = t;
            },
            None => {
                proof {
                    lemma_sum_fill_take_mono(fv, i as int + 1);
                }
                return None;
            },
        }
        i = i + 1;
    }
    proof {
        assert(fv.take(fills@.len() as int) =~= fv);
    }
    Some(total)
}

/// Extending a prefix of the fills by one adds exactly that fill's amount.
proof fn lemma_sum_fill_take_step(s: Seq<FillModel>, i: int)
    requires
        0 <= i < s.len(),
    ensures
        sum_fill_amounts(s.take(i + 1)) == sum_fill_amounts(s.take(i)) + s[i].amount,
    decreases i,
{
    if i == 0 {
        assert(s.take(1).drop_first() =~= Seq::<FillModel>::empty());
        assert(s.take(0) =~= Seq::<FillModel>::empty());
    } else {
        lemma_sum_fill_take_step(s.drop_first(), i - 1);
        assert(s.take(i + 1).drop_first() =~= s.drop_first().take(i));
        assert(s.take(i).drop_first() =~= s.drop_first().take(i - 1));
        assert(s.take(i + 1)[0] == s[0]);
        assert(s.take(i)[0] == s[0]);
    }
}

/// A prefix of the fills never sums to more than the whole: every fill
/// drawn from executable fills has a nonnegative amount.
proof fn lemma_sum_fill_take_mono(s: Seq<FillModel>, i: int)
    requires
        0 <= i <= s.len(),
        forall|k: int| 0 <= k < s.len() ==> #[trigger] s[k].amount >= 0,
    ensures
        sum_fill_amounts(s.take(i)) <= sum_fill_amounts(s),
    decreases s.len() - i,
{
    if i == s.len() {
        assert(s.take(i) =~= s);
    } else {
        lemma_sum_fill_take_step(s, i);
        lemma_sum_fill_take_mono(s, i + 1);
    }
}

/// Everything the orchestrator computes for one round before settlement:
/// the batches to submit, the fill count and matched total for the metrics
/// record, and the resting queue depth of both sides after matching.
pub struct RoundPrep {
    pub batches: Vec<Batch>,
    pub fill_count: usize,
    pub total_amount: Option<u128>,
    pub resting_buy_count: usize,
    pub resting_sell_count: usize,
}

/// One round's computation: matches the snapshot, totals the fills and
/// partitions them into identity-assigned batches. When no fills were
/// discovered, the batch list is empty and the round skips settlement.
pub fn prepare_round(
    buys: Vec<Order>,
    sells: Vec<Order>,
    batch_size: usize,
    secondary_count: usize,
) -> (r: RoundPrep)
    requires
        batch_size >= 1,
    ensures
        concat_batches(batch_fill_views(r.batches@)) == match_rec(
            order_views(buys@),
            order_views(sells@),
        ).fills,
        r.fill_count as int == match_rec(order_views(buys@), order_views(sells@)).fills.len(),
        (r.total_amount matches Some(t) ==> t as int == sum_fill_amounts(
            match_rec(order_views(buys@), order_views(sells@)).fills,
        )),
        (r.total_amount is None) <==> sum_fill_amounts(
            match_rec(order_views(buys@), order_views(sells@)).fills,
        ) > u128::MAX,
        r.resting_buy_count as int == match_rec(order_views(buys@), order_views(sells@)).buys.len(),
        r.resting_sell_count as int == match_rec(
            order_views(buys@),
            order_views(sells@),
        ).sells.len(),
        forall|k: int|
            0 <= k < r.batches@.len() ==> 1 <= #[trigger] r.batches@[k].fills@.len() <= batch_size,
        forall|k: int|
            0 <= k < r.batches@.len() ==> #[trigger] r.batches@[k].identity as int == identity_spec(
                k,
                secondary_count as int,
            ),
        r.batches@.len() == 0 <==> r.fill_count == 0,
{
    let outcome = match_orders(buys, sells);
    let fill_count = outcome.fills.len();
    let total_amount = total_matched(&outcome.fills);
    let resting_buy_count = outcome.buys.len();
    let resting_sell_count = outcome.sells.len();
    let batches = plan_batches(outcome.fills, batch_size, secondary_count);
    RoundPrep { batches, fill_count, total_amount, resting_buy_count, resting_sell_count }
}

} // verus!
