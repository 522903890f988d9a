use poly_last_new::book::{
    parse_level, parse_levels, sort_ascending, sort_descending, OrderLevel, Orderbook, RawLevel, RawNumber, TokenBook,
};

fn lvl(price: u64, size: u64) -> OrderLevel {
    OrderLevel { price, size }
}

fn text(s: &str) -> RawNumber {
    RawNumber::Text(s.to_string())
}

#[test]
fn asks_sort_cheapest_first_keeping_ties_in_order() {
    let v = vec![lvl(990_000, 1), lvl(850_000, 2), lvl(990_000, 3), lvl(10_000, 4)];
    let s = sort_ascending(v);
    assert_eq!(s, vec![lvl(10_000, 4), lvl(850_000, 2), lvl(990_000, 1), lvl(990_000, 3)]);
}

#[test]
fn bids_sort_dearest_first() {
    let v = vec![lvl(10_000, 4), lvl(990_000, 1), lvl(850_000, 2), lvl(990_000, 3)];
    let s = sort_descending(v);
    assert_eq!(s, vec![lvl(990_000, 1), lvl(990_000, 3), lvl(850_000, 2), lvl(10_000, 4)]);
}

#[test]
fn raw_levels_are_read_and_filtered() {
    assert_eq!(parse_level(&RawLevel { price: text("0.85"), size: text("120") }), Some(lvl(850_000, 120_000_000)));
    assert_eq!(parse_level(&RawLevel { price: RawNumber::Micros(500_000), size: text("1.5") }), Some(lvl(500_000, 1_500_000)));
    assert_eq!(parse_level(&RawLevel { price: text("0"), size: text("1") }), None);
    assert_eq!(parse_level(&RawLevel { price: text("-0.5"), size: text("1") }), None);
    assert_eq!(parse_level(&RawLevel { price: text("x"), size: text("1") }), None);
    assert_eq!(parse_level(&RawLevel { price: text("0.5"), size: RawNumber::Missing }), None);
    let raws = vec![
        RawLevel { price: text("0.99"), size: text("10") },
        RawLevel { price: text("bad"), size: text("10") },
        RawLevel { price: text("0.5"), size: text("2") },
    ];
    assert_eq!(parse_levels(&raws), vec![lvl(990_000, 10_000_000), lvl(500_000, 2_000_000)]);
}

#[test]
fn token_book_totals_and_best_ask() {
    let book = TokenBook::from_levels(vec![lvl(860_000, 85_000_000), lvl(850_000, 120_000_000)], vec![lvl(10_000, 1), lvl(20_000, 1)]);
    assert_eq!(book.best_ask(), Some(850_000));
    assert_eq!(book.asks[1].price, 860_000);
    assert_eq!(book.bids[0].price, 20_000);
    assert_eq!(book.total_ask_usdc(), 102_000_000 + 73_100_000);
    assert_eq!(book.total_ask_shares(), 205_000_000);
    assert_eq!(lvl(850_000, 120_000_000).value(), 102_000_000);
    assert_eq!(TokenBook::empty().best_ask(), None);
}

#[test]
fn only_asks_below_one_dollar_are_tradeable() {
    let book = TokenBook::from_levels(vec![lvl(1_000_000, 5), lvl(990_000, 1), lvl(1_200_000, 2), lvl(500_000, 3)], vec![]);
    assert_eq!(book.asks_below_one_dollar(), vec![lvl(500_000, 3), lvl(990_000, 1)]);
}

#[test]
fn empty_orderbook() {
    let ob = Orderbook::empty();
    assert!(ob.up.asks.is_empty() && ob.down.bids.is_empty());
    assert_eq!(ob.fetched_at, 0);
    let c = ob.duplicate();
    assert_eq!(c.fetched_at, 0);
}

#[test]
fn exponent_levels_are_kept() {
    assert_eq!(parse_level(&RawLevel { price: text("1e-1"), size: text("2E1") }), Some(lvl(100_000, 20_000_000)));
}
