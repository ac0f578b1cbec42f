//! Laws of the matcher, proved over the matching model.

use vstd::prelude::*;

use crate::matcher::{
    best_buy_idx, best_sell_idx, lemma_best_buy_props, lemma_best_sell_props, match_rec, min_int,
};
use crate::order::{
    amounts_nonneg, lemma_sum_amounts_nonneg, lemma_sum_amounts_remove, lemma_sum_amounts_update,
    lemma_sum_fill_cons, sum_amounts, sum_fill_amounts, FillModel, OrderModel,
};

verus! {

/// Matching an empty buy side or an empty sell side yields no fills and
/// leaves both sides as they are.
pub proof fn lemma_empty_side(buys: Seq<OrderModel>, sells: Seq<OrderModel>)
    requires
        buys.len() == 0 || sells.len() == 0,
    ensures
        match_rec(buys, sells).fills == Seq::<FillModel>::empty(),
        match_rec(buys, sells).buys == buys,
        match_rec(buys, sells).sells == sells,
{
}

/// A lone buy that crosses a lone sell fills for exactly the smaller of the
/// two remaining amounts.
pub proof fn lemma_single_pair_crossing(b: OrderModel, s: OrderModel)
    requires
        b.amount > 0,
        s.amount > 0,
        b.price >= s.price,
    ensures
        match_rec(seq![b], seq![s]).fills == seq![
            FillModel { buy_id: b.id, sell_id: s.id, amount: min_int(b.amount, s.amount) },
        ],
{
    let buys = seq![b];
    let sells = seq![s];
    assert(best_buy_idx(buys) == 0);
    assert(best_sell_idx(sells) == 0);
    let amt = min_int(b.amount, s.amount);
    let fm = FillModel { buy_id: b.id, sell_id: s.id, amount: amt };
    if b.amount == amt {
        assert(buys.remove(0) =~= Seq::<OrderModel>::empty());
        lemma_empty_side(
            buys.remove(0),
            if s.amount == amt {
                sells.remove(0)
            } else {
                sells.update(0, OrderModel { id: s.id, price: s.price, amount: s.amount - amt })
            },
        );
    } else {
        assert(s.amount == amt);
        assert(sells.remove(0) =~= Seq::<OrderModel>::empty());
        lemma_empty_side(
            buys.update(0, OrderModel { id: b.id, price: b.price, amount: b.amount - amt }),
            sells.remove(0),
        );
    }
    assert(seq![fm] + Seq::<FillModel>::empty() =~= seq![fm]);
}

/// When no buy price reaches any sell price, matching discovers no fill and
/// both sides rest unchanged.
pub proof fn lemma_no_crossing(buys: Seq<OrderModel>, sells: Seq<OrderModel>)
    requires
        forall|i: int, j: int|
            0 <= i < buys.len() && 0 <= j < sells.len() ==> #[trigger] buys[i].price
                < #[trigger] sells[j].price,
    ensures
        match_rec(buys, sells).fills == Seq::<FillModel>::empty(),
        match_rec(buys, sells).buys == buys,
        match_rec(buys, sells).sells == sells,
{
    if buys.len() > 0 && sells.len() > 0 {
        lemma_best_buy_props(buys);
        lemma_best_sell_props(sells);
        assert(buys[best_buy_idx(buys)].price < sells[best_sell_idx(sells)].price);
    }
}

/// The induction behind the matcher's laws: on sides whose amounts are
/// nonnegative, matching keeps every remaining amount nonnegative, discovers
/// only fills of positive amount, and accounts exactly — the amounts filled
/// plus the amounts still resting on a side equal the amounts that side
/// started with.
proof fn lemma_match_induct(buys: Seq<OrderModel>, sells: Seq<OrderModel>)
    requires
        amounts_nonneg(buys),
        amounts_nonneg(sells),
    ensures
        amounts_nonneg(match_rec(buys, sells).buys),
        amounts_nonneg(match_rec(buys, sells).sells),
        forall|i: int|
            0 <= i < match_rec(buys, sells).fills.len() ==> #[trigger] match_rec(
                buys,
                sells,
            ).fills[i].amount > 0,
        sum_fill_amounts(match_rec(buys, sells).fills) + sum_amounts(match_rec(buys, sells).buys)
            == sum_amounts(buys),
        sum_fill_amounts(match_rec(buys, sells).fills) + sum_amounts(match_rec(buys, sells).sells)
            == sum_amounts(sells),
    decreases buys.len() + sells.len(),
{
    if buys.len() == 0 || sells.len() == 0 {
    } else {
        lemma_best_buy_props(buys);
        lemma_best_sell_props(sells);
        let bi = best_buy_idx(buys);
        let si = best_sell_idx(sells);
        let b = buys[bi];
        let s = sells[si];
        if b.price >= s.price {
            let amt = min_int(b.amount, s.amount);
            assert(b.amount >= 0);
            assert(s.amount >= 0);
            let buys2 = if b.amount == amt {
                buys.remove(bi)
            } else {
                buys.update(bi, OrderModel { id: b.id, price: b.price, amount: b.amount - amt })
            };
            let sells2 = if s.amount == amt {
                sells.remove(si)
            } else {
                sells.update(si, OrderModel { id: s.id, price: s.price, amount: s.amount - amt })
            };
            if b.amount == amt {
                lemma_sum_amounts_remove(buys, bi);
            } else {
                lemma_sum_amounts_update(
                    buys,
                    bi,
                    OrderModel { id: b.id, price: b.price, amount: b.amount - amt },
                );
            }
            if s.amount == amt {
                lemma_sum_amounts_remove(sells, si);
            } else {
                lemma_sum_amounts_update(
                    sells,
                    si,
                    OrderModel { id: s.id, price: s.price, amount: s.amount - amt },
                );
            }
            assert(amounts_nonneg(buys2)) by {
                buys.remove_ensures(bi);
                assert forall|k: int| 0 <= k < buys2.len() implies #[trigger] buys2[k].amount
                    >= 0 by {
                    if b.amount == amt {
                        if k < bi {
                            assert(buys2[k] == buys[k]);
                        } else {
                            assert(buys2[k] == buys[k + 1]);
                        }
                    } else {
                        if k != bi {
                            assert(buys2[k] == buys[k]);
                        }
                    }
                }
            }
            assert(amounts_nonneg(sells2)) by {
                sells.remove_ensures(si);
                assert forall|k: int| 0 <= k < sells2.len() implies #[trigger] sells2[k].amount
                    >= 0 by {
                    if s.amount == amt {
                        if k < si {
                            assert(sells2[k] == sells[k]);
                        } else {
                            assert(sells2[k] == sells[k + 1]);
                        }
                    } else {
                        if k != si {
                            assert(sells2[k] == sells[k]);
                        }
                    }
                }
            }
            lemma_match_induct(buys2, sells2);
            let rest = match_rec(buys2, sells2);
            assert(sum_amounts(buys2) == sum_amounts(buys) - amt);
            assert(sum_amounts(sells2) == sum_amounts(sells) - amt);
            if amt > 0 {
                let fm = FillModel { buy_id: b.id, sell_id: s.id, amount: amt };
                lemma_sum_fill_cons(fm, rest.fills);
                assert(match_rec(buys, sells).fills == seq![fm] + rest.fills);
                assert forall|i: int|
                    0 <= i < match_rec(buys, sells).fills.len() implies #[trigger] match_rec(
                    buys,
                    sells,
                ).fills[i].amount > 0 by {
                    if i == 0 {
                        assert(match_rec(buys, sells).fills[0] == fm);
                    } else {
                        assert(match_rec(buys, sells).fills[i] == rest.fills[i - 1]);
                    }
                }
            } else {
                assert(match_rec(buys, sells).fills == rest.fills);
            }
        }
    }
}

/// Exact accounting: the amounts filled plus the amounts still resting on a
/// side equal the amounts that side started with.
pub proof fn lemma_matching_accounting(buys: Seq<OrderModel>, sells: Seq<OrderModel>)
    requires
        amounts_nonneg(buys),
        amounts_nonneg(sells),
    ensures
        sum_fill_amounts(match_rec(buys, sells).fills) + sum_amounts(match_rec(buys, sells).buys)
            == sum_amounts(buys),
        sum_fill_amounts(match_rec(buys, sells).fills) + sum_amounts(match_rec(buys, sells).sells)
            == sum_amounts(sells),
{
    lemma_match_induct(buys, sells);
}

/// No negative remainder, and no empty fill: matching sides whose amounts
/// are nonnegative leaves every remaining amount nonnegative, and every fill
/// it discovers is for a positive amount.
pub proof fn lemma_match_wellformed(buys: Seq<OrderModel>, sells: Seq<OrderModel>)
    requires
        amounts_nonneg(buys),
        amounts_nonneg(sells),
    ensures
        amounts_nonneg(match_rec(buys, sells).buys),
        amounts_nonneg(match_rec(buys, sells).sells),
        forall|i: int|
            0 <= i < match_rec(buys, sells).fills.len() ==> #[trigger] match_rec(
                buys,
                sells,
            ).fills[i].amount > 0,
{
    lemma_match_induct(buys, sells);
}

/// Conservation: a round's fills never total more than either side's
/// original resting amounts.
pub proof fn lemma_conservation(buys: Seq<OrderModel>, sells: Seq<OrderModel>)
    requires
        amounts_nonneg(buys),
        amounts_nonneg(sells),
    ensures
        sum_fill_amounts(match_rec(buys, sells).fills) <= sum_amounts(buys),
        sum_fill_amounts(match_rec(buys, sells).fills) <= sum_amounts(sells),
{
    lemma_match_induct(buys, sells);
    lemma_sum_amounts_nonneg(match_rec(buys, sells).buys);
    lemma_sum_amounts_nonneg(match_rec(buys, sells).sells);
}

} // verus!

