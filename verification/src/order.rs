//! Orders and fills, with their mathematical models.

use vstd::prelude::*;

verus! {

/// Model of a resting order: the identifier as a character sequence, the
/// limit price and the remaining amount as unbounded integers.
pub struct OrderModel {
    pub id: Seq<char>,
    pub price: int,
    pub amount: int,
}

/// A resting spot order. The identifier is unique within the book; the price
/// is a fixed-point integer; `amount` is the remaining quantity, decremented
/// only while a round is matched.
pub struct Order {
    pub id: String,
    pub price: u128,
    pub amount: u128,
}

impl View for Order {
    type V = OrderModel;

    open spec fn view(&self) -> OrderModel {
        OrderModel { id: self.id@, price: self.price as int, amount: self.amount as int }
    }
}

impl Clone for Order {
    fn clone(&self) -> (r: Self)
        ensures
            r@ == self@,
    {
        Order { id: self.id.clone(), price: self.price, amount: self.amount }
    }
}

/// Model of a fill.
pub struct FillModel {
    pub buy_id: Seq<char>,
    pub sell_id: Seq<char>,
    pub amount: int,
}

/// One match between a buy order and a sell order for `amount` units.
pub struct Fill {
    pub buy_id: String,
    pub sell_id: String,
    pub amount: u128,
}

impl View for Fill {
    type V = FillModel;

    open spec fn view(&self) -> FillModel {
        FillModel { buy_id: self.buy_id@, sell_id: self.sell_id@, amount: self.amount as int }
    }
}

impl Clone for Fill {
    fn clone(&self) -> (r: Self)
        ensures
            r@ == self@,
    {
        Fill { buy_id: self.buy_id.clone(), sell_id: self.sell_id.clone(), amount: self.amount }
    }
}

/// The models of a sequence of orders.
pub open spec fn order_views(s: Seq<Order>) -> Seq<OrderModel> {
    s.map_values(|o: Order| o@)
}

/// The models of a sequence of fills.
pub open spec fn fill_views(s: Seq<Fill>) -> Seq<FillModel> {
    s.map_values(|f: Fill| f@)
}

/// All amounts in a sequence of order models are nonnegative; holds of every
/// sequence drawn from executable orders, whose amounts are unsigned.
pub open spec fn amounts_nonneg(s: Seq<OrderModel>) -> bool {
    forall|i: int| 0 <= i < s.len() ==> #[trigger] s[i].amount >= 0
}

/// Sum of the remaining amounts of a sequence of order models.
pub open spec fn sum_amounts(s: Seq<OrderModel>) -> int
    decreases s.len(),
{
    if s.len() == 0 {
        0
    } else {
        s[0].amount + sum_amounts(s.drop_first())
    }
}

/// Sum of the matched amounts of a sequence of fill models.
pub open spec fn sum_fill_amounts(s: Seq<FillModel>) -> int
    decreases s.len(),
{
    if s.len() == 0 {
        0
    } else {
        s[0].amount + sum_fill_amounts(s.drop_first())
    }
}

/// Taking the views of a sequence of orders commutes with removing one.
pub proof fn lemma_order_views_remove(s: Seq<Order>, i: int)
    requires
        0 <= i < s.len(),
    ensures
        order_views(s.remove(i)) == order_views(s).remove(i),
{
    s.remove_ensures(i);
    order_views(s).remove_ensures(i);
    assert(order_views(s.remove(i)) =~= order_views(s).remove(i));
}

/// Removing an order and inserting another at the same position is, at the
/// level of views, an update at that position.
pub proof fn lemma_views_remove_insert(s: Seq<Order>, i: int, o: Order)
    requires
        0 <= i < s.len(),
    ensures
        order_views(s.remove(i).insert(i, o)) == order_views(s).update(i, o@),
{
    s.remove_ensures(i);
    s.remove(i).insert_ensures(i, o);
    assert(order_views(s.remove(i).insert(i, o)) =~= order_views(s).update(i, o@));
}

/// Removing an order subtracts exactly its amount from the side's total.
pub proof fn lemma_sum_amounts_remove(s: Seq<OrderModel>, i: int)
    requires
        0 <= i < s.len(),
    ensures
        sum_amounts(s.remove(i)) == sum_amounts(s) - s[i].amount,
    decreases i,
{
    s.remove_ensures(i);
    if i == 0 {
        assert(s.remove(0) =~= s.drop_first());
    } else {
        lemma_sum_amounts_remove(s.drop_first(), i - 1);
        assert(s.remove(i).drop_first() =~= s.drop_first().remove(i - 1));
        assert(s.remove(i)[0] == s[0]);
    }
}

/// Updating an order's entry replaces exactly its amount in the side's total.
pub proof fn lemma_sum_amounts_update(s: Seq<OrderModel>, i: int, v: OrderModel)
    requires
        0 <= i < s.len(),
    ensures
        sum_amounts(s.update(i, v)) == sum_amounts(s) - s[i].amount + v.amount,
    decreases i,
{
    if i == 0 {
        assert(s.update(0, v).drop_first() =~= s.drop_first());
        assert(s.update(0, v)[0] == v);
    } else {
        lemma_sum_amounts_update(s.drop_first(), i - 1, v);
        assert(s.update(i, v).drop_first() =~= s.drop_first().update(i - 1, v));
        assert(s.update(i, v)[0] == s[0]);
    }
}

/// A side whose amounts are all nonnegative has a nonnegative total.
pub proof fn lemma_sum_amounts_nonneg(s: Seq<OrderModel>)
    requires
        amounts_nonneg(s),
    ensures
        sum_amounts(s) >= 0,
    decreases s.len(),
{
    if s.len() > 0 {
        assert forall|i: int| 0 <= i < s.drop_first().len() implies #[trigger] s.drop_first()[i].amount
            >= 0 by {
            assert(s.drop_first()[i] == s[i + 1]);
        }
        lemma_sum_amounts_nonneg(s.drop_first());
    }
}

/// Prepending one fill adds exactly its amount to the fills' total.
pub proof fn lemma_sum_fill_cons(f: FillModel, s: Seq<FillModel>)
    ensures
        sum_fill_amounts(seq![f] + s) == f.amount + sum_fill_amounts(s),
{
    assert((seq![f] + s).drop_first() =~= s);
    assert((seq![f] + s)[0] == f);
}

} // verus!
