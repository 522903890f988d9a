use poly_last_new::types::{copy_trades, BotTrade, Candle, CandleHistory, MarketMeta, MarketPhase, Outcome};

#[test]
fn outcome_names() {
    assert_eq!(Outcome::Up.name(), "up");
    assert_eq!(Outcome::Down.name(), "down");
}

#[test]
fn market_meta_clock() {
    let mut m = MarketMeta::empty();
    assert!(m.is_empty());
    assert!(!m.has_ended_at(100));
    m.slug = "s".to_string();
    m.end_time = 1000;
    assert!(!m.is_empty());
    assert_eq!(m.seconds_until_end_at(940), 60);
    assert!(m.has_ended_at(1000));
    assert!(!m.has_ended_at(999));
    assert!(m.has_ended());
    assert!(m.seconds_until_end() < 0);
}

#[test]
fn candle_tracks_range() {
    let mut c = Candle::new(60, 100);
    c.update(120);
    c.update(90);
    c.update(110);
    assert_eq!((c.open, c.high, c.low, c.close, c.ticks), (100, 120, 90, 110, 4));
    assert_eq!(c.direction(), "↑");
    assert!(c.is_rising());
    c.update(99);
    assert_eq!(c.direction(), "↓");
}

#[test]
fn candle_history_rolls_minutes() {
    let mut h = CandleHistory::new(2);
    h.update_at(100, 60);
    h.update_at(110, 119);
    assert_eq!(h.last_completed().len(), 0);
    h.update_at(120, 120);
    h.update_at(130, 185);
    h.update_at(140, 245);
    let done = h.last_completed();
    assert_eq!(done.len(), 2);
    assert_eq!(done[0].start_ts, 120);
    assert_eq!(done[0].close, 120);
    assert_eq!(done[1].start_ts, 180);
    let cur = h.current_candle.unwrap();
    assert_eq!(cur.start_ts, 240);
    let first = Candle { start_ts: 60, open: 100, high: 110, low: 100, close: 110, ticks: 2 };
    assert!(!done.contains(&first));
}

#[test]
fn trades_copy() {
    let t = BotTrade {
        ts: 1,
        market_slug: "m".to_string(),
        outcome: Outcome::Down,
        shares: 2,
        usdc_spent: 1,
        fill_price: 500_000,
        order_id: "o".to_string(),
        is_live: false,
    };
    let v = copy_trades(&vec![t.duplicate(), t]);
    assert_eq!(v.len(), 2);
    assert_eq!(v[1].order_id, "o");
    assert_eq!(MarketPhase::default(), MarketPhase::Active);
}
