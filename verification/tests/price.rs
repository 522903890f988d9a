use poly_last_new::price::{normalize_chainlink_ts, now_secs, PriceHistory, PricePoint, MAX_POINTS};

fn pt(price: u64, ts: i64) -> PricePoint {
    PricePoint { price, chainlink_ts: ts }
}

#[test]
fn empty_history_has_no_price() {
    let h = PriceHistory::new();
    assert_eq!(h.current_price(), 0);
    assert_eq!(h.price_exact(100), None);
    assert_eq!(h.price_at(100), None);
}

#[test]
fn newest_round_is_current_price() {
    let mut h = PriceHistory::new();
    h.push(pt(100, 10));
    h.push(pt(200, 11));
    assert_eq!(h.current_price(), 200);
}

#[test]
fn duplicate_timestamp_is_ignored() {
    let mut h = PriceHistory::new();
    h.push(pt(100, 10));
    h.push(pt(999, 10));
    assert_eq!(h.current_price(), 100);
    assert_eq!(h.price_exact(10), Some(100));
}

#[test]
fn late_round_is_refused() {
    let mut h = PriceHistory::new();
    h.push(pt(100, 10));
    h.push(pt(50, 5));
    assert_eq!(h.current_price(), 100);
    assert_eq!(h.price_exact(5), None);
    assert_eq!(h.price_at(12), Some(100));
    assert_eq!(h.price_at(7), None);
}

#[test]
fn exact_lookup_finds_only_exact_round() {
    let mut h = PriceHistory::new();
    h.push(pt(100, 10));
    h.push(pt(200, 12));
    assert_eq!(h.price_exact(12), Some(200));
    assert_eq!(h.price_exact(11), None);
}

#[test]
fn price_in_effect_is_latest_not_after() {
    let mut h = PriceHistory::new();
    h.push(pt(100, 10));
    h.push(pt(200, 12));
    h.push(pt(300, 15));
    assert_eq!(h.price_at(9), None);
    assert_eq!(h.price_at(10), Some(100));
    assert_eq!(h.price_at(11), Some(100));
    assert_eq!(h.price_at(14), Some(200));
    assert_eq!(h.price_at(100), Some(300));
}

#[test]
fn history_keeps_sixty_newest_rounds() {
    let mut h = PriceHistory::new();
    for i in 0..70i64 {
        h.push(pt(1000 + i as u64, 100 + i));
    }
    assert_eq!(MAX_POINTS, 60);
    assert_eq!(h.price_exact(100), None);
    assert_eq!(h.price_exact(109), None);
    assert_eq!(h.price_exact(110), Some(1010));
    assert_eq!(h.price_exact(169), Some(1069));
    assert_eq!(h.current_price(), 1069);
}

#[test]
fn millisecond_timestamps_are_normalised() {
    assert_eq!(normalize_chainlink_ts(1_776_795_300_123, 5), 1_776_795_300);
    assert_eq!(normalize_chainlink_ts(1_776_795_300, 5), 1_776_795_300);
    assert_eq!(normalize_chainlink_ts(1_000_000_000_000, 5), 1_000_000_000_000);
    assert_eq!(normalize_chainlink_ts(0, 77), 77);
    assert_eq!(normalize_chainlink_ts(-3, 77), 77);
}

#[test]
fn stream_updates_are_recorded() {
    let mut h = PriceHistory::new();
    h.record_update(0, 1_776_795_300_000, 1);
    assert_eq!(h.current_price(), 0);
    h.record_update(8_345_000_000_000, 1_776_795_300_000, 1);
    assert_eq!(h.price_exact(1_776_795_300), Some(8_345_000_000_000));
    h.record_update(7, 0, 1_776_795_301);
    assert_eq!(h.price_exact(1_776_795_301), Some(7));
}

#[test]
fn machine_clock_reads_unix_seconds() {
    assert!(now_secs() > 1_600_000_000);
}
