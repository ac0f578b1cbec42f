use spark_matcher::book::get_all_orders;
use spark_matcher::matcher::match_orders;
use spark_matcher::order::Order;

fn order(id: &str, price: u128, amount: u128) -> Order {
    Order { id: String::from(id), price, amount }
}

#[test]
fn crossing_pair_fills_min_amount() {
    let buys = vec![order("B1", 100, 5)];
    let sells = vec![order("S1", 95, 4)];
    let out = match_orders(buys, sells);
    assert_eq!(out.fills.len(), 1);
    assert_eq!(out.fills[0].buy_id, "B1");
    assert_eq!(out.fills[0].sell_id, "S1");
    assert_eq!(out.fills[0].amount, 4);
    assert_eq!(out.buys.len(), 1);
    assert_eq!(out.buys[0].amount, 1);
    assert_eq!(out.sells.len(), 0);
}

#[test]
fn equal_price_crosses() {
    let buys = vec![order("B1", 100, 3)];
    let sells = vec![order("S1", 100, 3)];
    let out = match_orders(buys, sells);
    assert_eq!(out.fills.len(), 1);
    assert_eq!(out.fills[0].amount, 3);
    assert_eq!(out.buys.len(), 0);
    assert_eq!(out.sells.len(), 0);
}

#[test]
fn no_crossing_pair_no_fill() {
    let buys = vec![order("B1", 90, 5), order("B2", 80, 2)];
    let sells = vec![order("S1", 95, 4), order("S2", 99, 1)];
    let out = match_orders(buys, sells);
    assert!(out.fills.is_empty());
    assert_eq!(out.buys.len(), 2);
    assert_eq!(out.sells.len(), 2);
}

#[test]
fn round_scenario_stops_at_first_non_crossing_pair() {
    let buys = vec![order("B1", 100, 5), order("B2", 90, 3)];
    let sells = vec![order("S1", 95, 4), order("S2", 101, 2)];
    let out = match_orders(buys, sells);
    assert_eq!(out.fills.len(), 1);
    assert_eq!(out.fills[0].buy_id, "B1");
    assert_eq!(out.fills[0].sell_id, "S1");
    assert_eq!(out.fills[0].amount, 4);
    // B1 keeps a remainder of 1; B2 was never paired; S2 rests above B1's price.
    assert_eq!(out.buys.len(), 2);
    assert_eq!(out.buys[0].id, "B1");
    assert_eq!(out.buys[0].amount, 1);
    assert_eq!(out.buys[1].id, "B2");
    assert_eq!(out.buys[1].amount, 3);
    assert_eq!(out.sells.len(), 1);
    assert_eq!(out.sells[0].id, "S2");
    assert_eq!(out.sells[0].amount, 2);
}

#[test]
fn empty_buy_side_yields_no_fills() {
    let buys: Vec<Order> = Vec::new();
    let sells = vec![order("S1", 10, 4)];
    let out = match_orders(buys, sells);
    assert!(out.fills.is_empty());
    assert_eq!(out.sells.len(), 1);
}

#[test]
fn empty_sell_side_yields_no_fills() {
    let buys = vec![order("B1", 10, 4)];
    let sells: Vec<Order> = Vec::new();
    let out = match_orders(buys, sells);
    assert!(out.fills.is_empty());
    assert_eq!(out.buys.len(), 1);
}

#[test]
fn zero_amount_order_never_emits_a_fill() {
    let buys = vec![order("B1", 100, 0), order("B2", 100, 2)];
    let sells = vec![order("S1", 95, 2)];
    let out = match_orders(buys, sells);
    assert_eq!(out.fills.len(), 1);
    assert_eq!(out.fills[0].buy_id, "B2");
    assert_eq!(out.fills[0].amount, 2);
    for f in &out.fills {
        assert!(f.amount > 0);
    }
}

#[test]
fn conservation_on_a_busy_book() {
    let buys = vec![order("B1", 105, 7), order("B2", 103, 2), order("B3", 101, 9)];
    let sells = vec![order("S1", 100, 4), order("S2", 102, 6), order("S3", 104, 5)];
    let buy_total: u128 = 7 + 2 + 9;
    let sell_total: u128 = 4 + 6 + 5;
    let out = match_orders(buys, sells);
    let filled: u128 = out.fills.iter().map(|f| f.amount).sum();
    let buys_left: u128 = out.buys.iter().map(|o| o.amount).sum();
    let sells_left: u128 = out.sells.iter().map(|o| o.amount).sum();
    assert!(filled <= buy_total);
    assert!(filled <= sell_total);
    assert_eq!(filled + buys_left, buy_total);
    assert_eq!(filled + sells_left, sell_total);
    for f in &out.fills {
        assert!(f.amount > 0);
    }
}

#[test]
fn price_tie_goes_to_the_earlier_order() {
    let buys = vec![order("B1", 100, 2), order("B2", 100, 2)];
    let sells = vec![order("S1", 100, 2), order("S2", 100, 2)];
    let out = match_orders(buys, sells);
    assert_eq!(out.fills.len(), 2);
    assert_eq!(out.fills[0].buy_id, "B1");
    assert_eq!(out.fills[0].sell_id, "S1");
    assert_eq!(out.fills[1].buy_id, "B2");
    assert_eq!(out.fills[1].sell_id, "S2");
}

#[test]
fn get_all_orders_flattens_both_sides_in_level_order() {
    let buy_levels = vec![
        vec![order("B1", 100, 1), order("B2", 100, 2)],
        vec![order("B3", 90, 3)],
    ];
    let sell_levels = vec![vec![order("S1", 101, 4)]];
    let (buys, sells) = get_all_orders(&buy_levels, &sell_levels);
    assert_eq!(buys.len(), 3);
    assert_eq!(buys[0].id, "B1");
    assert_eq!(buys[1].id, "B2");
    assert_eq!(buys[2].id, "B3");
    assert_eq!(sells.len(), 1);
    assert_eq!(sells[0].id, "S1");
}
