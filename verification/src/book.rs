//! Reading a book snapshot: flattening the price levels of a side into one
//! order list. The book itself — grouped by price level and shared behind
//! read locks — belongs to the order-management collaborator; the matcher
//! works on owned copies.

use vstd::prelude::*;

use crate::order::{order_views, Order, OrderModel};

verus! {

/// Concatenation of the orders of all price levels, in level order.
pub open spec fn concat_levels(s: Seq<Seq<OrderModel>>) -> Seq<OrderModel>
    decreases s.len(),
{
    if s.len() == 0 {
        Seq::<OrderModel>::empty()
    } else {
        concat_levels(s.drop_last()) + s.last()
    }
}

/// The order models of each price level.
pub open spec fn level_views(s: Seq<Vec<Order>>) -> Seq<Seq<OrderModel>> {
    s.map_values(|v: Vec<Order>| order_views(v@))
}

/// An owned copy of one price level.
fn clone_level(level: &Vec<Order>) -> (r: Vec<Order>)
    ensures
        order_views(r@) == order_views(level@),
{
    let mut out: Vec<Order> = Vec::new();
    let mut j: usize = 0;
    while j < level.len()
        invariant
            j <= level@.len(),
            out@.len() == j,
            forall|k: int| 0 <= k < j ==> #[trigger] out@[k]@ == level@[k]@,
        decreases level@.len() - j,
    {
        out.push(level[j].clone());
        j = j + 1;
    }
    proof {
        assert(order_views(out@) =~= order_views(level@));
    }
    out
}

/// All orders of the given price levels, as owned copies, in level order.
pub fn flatten_levels(levels: &Vec<Vec<Order>>) -> (r: Vec<Order>)
    ensures
        order_views(r@) == concat_levels(level_views(levels@)),
{
    let mut out: Vec<Order> = Vec::new();
    let mut i: usize = 0;
    proof {
        assert(order_views(out@) =~= concat_levels(level_views(levels@.take(0))));
    }
    while i < levels.len()
        invariant
            i <= levels@.len(),
            order_views(out@) == concat_levels(level_views(levels@.take(i as int))),
        decreases levels@.len() - i,
    {
        let ghost out0 = out@;
        let mut lv = clone_level(&levels[i]);
        let ghost lv0 = lv@;
        out.append(&mut lv);
        i = i + 1;
        proof {
            assert(order_views(out@) =~= order_views(out0) + order_views(lv0));
            assert(level_views(levels@.take(i as int)).drop_last() =~= level_views(
                levels@.take(i as int - 1),
            ));
            assert(level_views(levels@.take(i as int)).last() == order_views(
                levels@[i as int - 1]@,
            ));
        }
    }
    proof {
        assert(levels@.take(levels@.len() as int) =~= levels@);
    }
    out
}

/// One snapshot of the whole book: every resting buy order and every resting
/// sell order, each side flattened in level order.
pub fn get_all_orders(buy_levels: &Vec<Vec<Order>>, sell_levels: &Vec<Vec<Order>>) -> (r: (
    Vec<Order>,
    Vec<Order>,
))
    ensures
        order_views(r.0@) == concat_levels(level_views(buy_levels@)),
        order_views(r.1@) == concat_levels(level_views(sell_levels@)),
{
    (flatten_levels(buy_levels), flatten_levels(sell_levels))
}

} // verus!
