//! Price-priority matching of resting buy and sell orders.
//!
//! The matcher repeatedly pairs the best (highest-priced) resting buy with
//! the best (lowest-priced) resting sell. When the pair crosses, a fill of
//! the smaller remaining amount is recorded and both orders are decremented;
//! an exhausted order leaves its queue. When the best pair does not cross,
//! no further pair can cross at better priority and the round's matching
//! ends with both queues as they stand. Ties between equal prices are broken
//! by queue position: the earlier order wins.

use vstd::prelude::*;

use crate::order::{fill_views, order_views, Fill, FillModel, Order, OrderModel};
use crate::order::{lemma_order_views_remove, lemma_views_remove_insert};

verus! {

/// The smaller of two integers.
pub open spec fn min_int(a: int, b: int) -> int {
    if a <= b {
        a
    } else {
        b
    }
}

/// Index of the best buy candidate among the first `n` orders: the first
/// occurrence of the maximum price.
pub open spec fn best_buy_upto(s: Seq<OrderModel>, n: int) -> int
    decreases n,
{
    if n <= 1 {
        0
    } else {
        let b = best_buy_upto(s, n - 1);
        if s[n - 1].price > s[b].price {
            n - 1
        } else {
            b
        }
    }
}

/// Index of the best buy candidate: the first occurrence of the maximum price.
pub open spec fn best_buy_idx(s: Seq<OrderModel>) -> int {
    best_buy_upto(s, s.len() as int)
}

/// Index of the best sell candidate among the first `n` orders: the first
/// occurrence of the minimum price.
pub open spec fn best_sell_upto(s: Seq<OrderModel>, n: int) -> int
    decreases n,
{
    if n <= 1 {
        0
    } else {
        let b = best_sell_upto(s, n - 1);
        if s[n - 1].price < s[b].price {
            n - 1
        } else {
            b
        }
    }
}

/// Index of the best sell candidate: the first occurrence of the minimum price.
pub open spec fn best_sell_idx(s: Seq<OrderModel>) -> int {
    best_sell_upto(s, s.len() as int)
}

pub proof fn lemma_best_buy_upto_props(s: Seq<OrderModel>, n: int)
    requires
        1 <= n <= s.len(),
    ensures
        0 <= best_buy_upto(s, n) < n,
        forall|j: int| 0 <= j < n ==> #[trigger] s[j].price <= s[best_buy_upto(s, n)].price,
    decreases n,
{
    if n > 1 {
        lemma_best_buy_upto_props(s, n - 1);
    }
}

/// The best buy index lies in range and carries the maximum buy price.
pub proof fn lemma_best_buy_props(s: Seq<OrderModel>)
    requires
        s.len() >= 1,
    ensures
        0 <= best_buy_idx(s) < s.len(),
        forall|j: int| 0 <= j < s.len() ==> #[trigger] s[j].price <= s[best_buy_idx(s)].price,
{
    lemma_best_buy_upto_props(s, s.len() as int);
}

pub proof fn lemma_best_sell_upto_props(s: Seq<OrderModel>, n: int)
    requires
        1 <= n <= s.len(),
    ensures
        0 <= best_sell_upto(s, n) < n,
        forall|j: int| 0 <= j < n ==> #[trigger] s[j].price >= s[best_sell_upto(s, n)].price,
    decreases n,
{
    if n > 1 {
        lemma_best_sell_upto_props(s, n - 1);
    }
}

/// The best sell index lies in range and carries the minimum sell price.
pub proof fn lemma_best_sell_props(s: Seq<OrderModel>)
    requires
        s.len() >= 1,
    ensures
        0 <= best_sell_idx(s) < s.len(),
        forall|j: int| 0 <= j < s.len() ==> #[trigger] s[j].price >= s[best_sell_idx(s)].price,
{
    lemma_best_sell_upto_props(s, s.len() as int);
}

/// Result of matching: the fills in the order they are discovered, and the
/// final state of both queues.
pub struct MatchModel {
    pub fills: Seq<FillModel>,
    pub buys: Seq<OrderModel>,
    pub sells: Seq<OrderModel>,
}

/// One round of matching, defined recursively. Each step examines the best
/// buy and the best sell. A crossing pair (buy price at or above sell price)
/// fills the smaller remaining amount; a fill of amount zero, which can only
/// arise from an order resting with amount zero, is skipped silently and the
/// zero orders leave their queues. A non-crossing best pair ends matching
/// with both queues unchanged.
pub open spec fn match_rec(buys: Seq<OrderModel>, sells: Seq<OrderModel>) -> MatchModel
    decreases buys.len() + sells.len(),
{
    if buys.len() == 0 || sells.len() == 0 {
        MatchModel { fills: Seq::<FillModel>::empty(), buys: buys, sells: sells }
    } else {
        let bi = best_buy_idx(buys);
        let si = best_sell_idx(sells);
        let b = buys[bi];
        let s = sells[si];
        if b.price >= s.price {
            let amt = min_int(b.amount, s.amount);
            let buys2 = if b.amount == amt {
                buys.remove(bi)
            } else {
                buys.update(bi, OrderModel { id: b.id, price: b.price, amount: b.amount - amt })
            };
            let sells2 = if s.amount == amt {
                sells.remove(si)
            } else {
                sells.update(si, OrderModel { id: s.id, price: s.price, amount: s.amount - amt })
            };
            proof {
                lemma_best_buy_props(buys);
                lemma_best_sell_props(sells);
            }
            let rest = match_rec(buys2, sells2);
            if amt > 0 {
                MatchModel {
                    fills: seq![FillModel { buy_id: b.id, sell_id: s.id, amount: amt }]
                        + rest.fills,
                    buys: rest.buys,
                    sells: rest.sells,
                }
            } else {
                rest
            }
        } else {
            MatchModel { fills: Seq::<FillModel>::empty(), buys: buys, sells: sells }
        }
    }
}

/// Finds the position of the best buy candidate: the first order with the
/// highest price.
fn find_best_buy(orders: &Vec<Order>) -> (r: usize)
    requires
        orders@.len() >= 1,
    ensures
        r as int == best_buy_idx(order_views(orders@)),
{
    let mut best: usize = 0;
    let mut i: usize = 1;
    while i < orders.len()
        invariant
            1 <= i <= orders@.len(),
            best < i,
            best as int == best_buy_upto(order_views(orders@), i as int),
        decreases orders@.len() - i,
    {
        if orders[i].price > orders[best].price {
            best = i;
        }
        i = i + 1;
    }
    best
}

/// Finds the position of the best sell candidate: the first order with the
/// lowest price.
fn find_best_sell(orders: &Vec<Order>) -> (r: usize)
    requires
        orders@.len() >= 1,
    ensures
        r as int == best_sell_idx(order_views(orders@)),
{
    let mut best: usize = 0;
    let mut i: usize = 1;
    while i < orders.len()
        invariant
            1 <= i <= orders@.len(),
            best < i,
            best as int == best_sell_upto(order_views(orders@), i as int),
        decreases orders@.len() - i,
    {
        if orders[i].price < orders[best].price {
            best = i;
        }
        i = i + 1;
    }
    best
}

/// Everything one round of matching produces: the fills in discovery order
/// and the remaining state of both queues.
pub struct MatchOutcome {
    pub fills: Vec<Fill>,
    pub buys: Vec<Order>,
    pub sells: Vec<Order>,
}

/// Matches the given resting buy orders against the given resting sell
/// orders by price priority and returns the fills together with the final
/// state of both queues, exactly as `match_rec` describes.
pub fn match_orders(buys: Vec<Order>, sells: Vec<Order>) -> (r: MatchOutcome)
    ensures
        fill_views(r.fills@) == match_rec(order_views(buys@), order_views(sells@)).fills,
        order_views(r.buys@) == match_rec(order_views(buys@), order_views(sells@)).buys,
        order_views(r.sells@) == match_rec(order_views(buys@), order_views(sells@)).sells,
{
    let ghost obs = order_views(buys@);
    let ghost oss = order_views(sells@);
    let mut bq = buys;
    let mut sq = sells;
    let mut fills: Vec<Fill> = Vec::new();
    proof {
        assert(fill_views(fills@) + match_rec(obs, oss).fills =~= match_rec(obs, oss).fills);
    }
    loop
        invariant
            match_rec(obs, oss).fills == fill_views(fills@) + match_rec(
                order_views(bq@),
                order_views(sq@),
            ).fills,
            match_rec(obs, oss).buys == match_rec(order_views(bq@), order_views(sq@)).buys,
            match_rec(obs, oss).sells == match_rec(order_views(bq@), order_views(sq@)).sells,
        ensures
            fill_views(fills@) == match_rec(obs, oss).fills,
            order_views(bq@) == match_rec(obs, oss).buys,
            order_views(sq@) == match_rec(obs, oss).sells,
        decreases bq@.len() + sq@.len(),
    {
        let ghost bq0 = bq@;
        let ghost sq0 = sq@;
        let ghost bv0 = order_views(bq@);
        let ghost sv0 = order_views(sq@);
        if bq.len() == 0 || sq.len() == 0 {
            proof {
                assert(fill_views(fills@) + match_rec(bv0, sv0).fills =~= fill_views(fills@));
            }
            break;
        }
        let bi = find_best_buy(&bq);
        let si = find_best_sell(&sq);
        proof {
            lemma_best_buy_props(bv0);
            lemma_best_sell_props(sv0);
        }
        if bq[bi].price >= sq[si].price {
            let mut b = bq.remove(bi);
            let mut s = sq.remove(si);
            let amt = if b.amount <= s.amount {
                b.amount
            } else {
                s.amount
            };
            let ghost fills0 = fills@;
            if amt > 0 {
                fills.push(Fill { buy_id: b.id.clone(), sell_id: s.id.clone(), amount: amt });
            }
            b.amount = b.amount - amt;
            s.amount = s.amount - amt;
            let ghost bsnap = b;
            let ghost ssnap = s;
            let keep_b = b.amount > 0;
            let keep_s = s.amount > 0;
            if keep_b {
                bq.insert(bi, b);
            }
            if keep_s {
                sq.insert(si, s);
            }
            proof {
                let bm = bv0[bi as int];
                let sm = sv0[si as int];
                let amt_s = min_int(bm.amount, sm.amount);
                assert(amt as int == amt_s);
                let buys2 = if bm.amount == amt_s {
                    bv0.remove(bi as int)
                } else {
                    bv0.update(
                        bi as int,
                        OrderModel { id: bm.id, price: bm.price, amount: bm.amount - amt_s },
                    )
                };
                let sells2 = if sm.amount == amt_s {
                    sv0.remove(si as int)
                } else {
                    sv0.update(
                        si as int,
                        OrderModel { id: sm.id, price: sm.price, amount: sm.amount - amt_s },
                    )
                };
                if keep_b {
                    lemma_views_remove_insert(bq0, bi as int, bsnap);
                    assert(order_views(bq@) == buys2);
                } else {
                    lemma_order_views_remove(bq0, bi as int);
                    assert(order_views(bq@) == buys2);
                }
                if keep_s {
                    lemma_views_remove_insert(sq0, si as int, ssnap);
                    assert(order_views(sq@) == sells2);
                } else {
                    lemma_order_views_remove(sq0, si as int);
                    assert(order_views(sq@) == sells2);
                }
                let rest = match_rec(buys2, sells2);
                assert(match_rec(bv0, sv0).buys == rest.buys);
                assert(match_rec(bv0, sv0).sells == rest.sells);
                if amt > 0 {
                    let fm = FillModel { buy_id: bm.id, sell_id: sm.id, amount: amt_s };
                    assert(fill_views(fills@) =~= fill_views(fills0) + seq![fm]);
                    assert(match_rec(bv0, sv0).fills == seq![fm] + rest.fills);
                    assert(fill_views(fills0) + (seq![fm] + rest.fills) =~= (fill_views(fills0)
                        + seq![fm]) + rest.fills);
                } else {
                    assert(fill_views(fills@) == fill_views(fills0));
                    assert(match_rec(bv0, sv0).fills == rest.fills);
                }
            }
        } else {
            proof {
                assert(fill_views(fills@) + match_rec(bv0, sv0).fills =~= fill_views(fills@));
            }
            break;
        }
    }
    MatchOutcome { fills, buys: bq, sells: sq }
}

} // verus!
