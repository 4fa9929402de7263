use std::collections::BTreeMap;

use iex_book::order_book::side::Side;
use iex_book::order_book::limit::LimitOrder;
use iex_book::order_book::OrderBook;

#[test]
fn empty_order_book() {
    let order_book = OrderBook::new();

    assert_eq!(order_book.max_buy(), None);
    assert_eq!(order_book.min_sell(), None);
    assert_eq!(order_book.spread(), None);
}

#[test]
fn empty_btreemap_iter() {
    let empty_map: BTreeMap<u64, u32> = BTreeMap::new();
    assert_eq!(empty_map.iter().next(), None);
}

#[test]
fn one_buy() {
    let mut order_book = OrderBook::new();

    order_book.add_limit(Side::Buy, 1, 1);

    assert_eq!(order_book.spread(), None);
}

#[test]
fn one_sell() {
    let mut order_book = OrderBook::new();

    order_book.add_limit(Side::Sell, 1, 1);

    assert_eq!(order_book.spread(), None);
}

#[test]
fn no_spread() {
    let mut order_book = OrderBook::new();

    order_book.add_limit(Side::Sell, 1, 1);
    order_book.add_limit(Side::Buy, 1, 1);

    assert_eq!(order_book.spread().unwrap(), 0);
}

#[test]
fn spread() {
    let mut order_book = OrderBook::new();

    order_book.add_limit(Side::Sell, 1, 1);
    order_book.add_limit(Side::Buy, 1, 2);

    assert_eq!(order_book.spread().unwrap(), 1);
}

#[test]
fn max_buy() {
    let mut order_book = OrderBook::new();

    order_book.add_limit(Side::Buy, 1, 1);
    order_book.add_limit(Side::Buy, 1, 2);

    assert_eq!(order_book.max_buy().unwrap(), 2);
}

#[test]
fn min_sell() {
    let mut order_book = OrderBook::new();

    order_book.add_limit(Side::Sell, 1, 1);
    order_book.add_limit(Side::Sell, 1, 2);

    assert_eq!(order_book.min_sell().unwrap(), 1);
}

#[test]
fn side_negation() {
    assert_eq!(!Side::Sell, Side::Buy);
    assert_eq!(!Side::Buy, Side::Sell);
}

#[test]
fn side_negation_twice_is_identity() {
    assert_eq!(!!Side::Sell, Side::Sell);
    assert_eq!(!!Side::Buy, Side::Buy);
}

#[test]
fn side_labels() {
    assert_eq!(Side::Buy.to_string(), "BUY");
    assert_eq!(Side::Sell.to_string(), "SELL");
}

#[test]
fn zero_size_removes_level() {
    let mut order_book = OrderBook::new();
    order_book.add_limit(Side::Buy, 300, 1_112_000);
    order_book.add_limit(Side::Buy, 100, 1_111_000);
    assert_eq!(order_book.max_buy(), Some(1_112_000));
    order_book.add_limit(Side::Buy, 0, 1_112_000);
    assert_eq!(order_book.max_buy(), Some(1_111_000));
    assert!(!order_book.buys.contains_key(&1_112_000));
}

#[test]
fn zero_size_for_absent_level_changes_nothing() {
    let mut order_book = OrderBook::new();
    order_book.add_limit(Side::Sell, 5, 10);
    order_book.add_limit(Side::Sell, 0, 11);
    assert_eq!(order_book.sells.len(), 1);
    assert_eq!(order_book.sells.get(&10), Some(&5));
}

#[test]
fn first_size_at_a_price_stays() {
    let mut order_book = OrderBook::new();
    order_book.add_limit(Side::Sell, 100, 1_168_700);
    order_book.add_limit(Side::Sell, 200, 1_168_700);
    assert_eq!(order_book.sells.get(&1_168_700), Some(&100));
    assert_eq!(order_book.sells.len(), 1);
}

#[test]
fn open_then_close_restores_book() {
    let mut order_book = OrderBook::new();
    order_book.add_limit(Side::Buy, 7, 40);
    let before = order_book.buys.clone();
    order_book.add_limit(Side::Buy, 9, 50);
    order_book.add_limit(Side::Buy, 0, 50);
    assert_eq!(order_book.buys, before);
    assert!(order_book.sells.is_empty());
}

#[test]
fn sides_are_independent() {
    let mut order_book = OrderBook::new();
    order_book.add_limit(Side::Sell, 3, 20);
    order_book.add_limit(Side::Buy, 4, 20);
    order_book.add_limit(Side::Buy, 0, 20);
    assert_eq!(order_book.sells.get(&20), Some(&3));
    assert!(order_book.buys.is_empty());
}

#[test]
fn spread_is_distance_either_way() {
    let mut order_book = OrderBook::new();
    order_book.add_limit(Side::Sell, 100, 1_168_700);
    order_book.add_limit(Side::Buy, 300, 1_112_000);
    assert_eq!(order_book.spread(), Some(56_700));

    let mut crossed = OrderBook::new();
    crossed.add_limit(Side::Sell, 1, 5);
    crossed.add_limit(Side::Buy, 1, 9);
    assert_eq!(crossed.spread(), Some(4));
}

#[test]
fn best_prices_use_extreme_levels() {
    let mut order_book = OrderBook::new();
    for price in [30u64, 10, 20] {
        order_book.add_limit(Side::Buy, 1, price);
        order_book.add_limit(Side::Sell, 1, price + 100);
    }
    assert_eq!(order_book.max_buy(), Some(30));
    assert_eq!(order_book.min_sell(), Some(110));
}

#[test]
fn limit_order_fields() {
    let order = LimitOrder { id: 1, qty: 2, price: 3 };
    assert_eq!(order, LimitOrder { id: 1, qty: 2, price: 3 });
    assert_ne!(order, LimitOrder { id: 1, qty: 2, price: 4 });
}
