use poly_last_new::book::{OrderLevel, Orderbook, TokenBook};
use poly_last_new::config::{Config, EnvSettings};
use poly_last_new::engine::{remaining_secs, shares_to_buy, worth_an_order, AppState, Status, TickAction, WalkStep};
use poly_last_new::order::TestExecutor;
use poly_last_new::price::{PriceHistory, PricePoint};
use poly_last_new::types::{MarketMeta, MarketPhase, Outcome};

const B: i64 = 1_700_000_100;
const BEAT: u64 = 8_345_000_000_000;

fn env(max_trades: &str) -> EnvSettings {
    EnvSettings {
        trade_amount: None,
        order_usdc: None,
        slippage_buffer: None,
        max_trades: Some(max_trades.to_string()),
        max_trades_per_market: None,
        private_key: None,
        builder_code: None,
    }
}

fn meta(slug: &str, start: i64) -> MarketMeta {
    MarketMeta {
        slug: slug.to_string(),
        end_time: start + 300,
        event_start_time: start,
        up_token_id: "111".to_string(),
        down_token_id: "222".to_string(),
        beat_price: None,
        question: String::new(),
    }
}

fn book(up_asks: Vec<OrderLevel>) -> Orderbook {
    Orderbook { up: TokenBook::from_levels(up_asks, vec![]), down: TokenBook::empty(), fetched_at: 0 }
}

/// A state that has entered the market of bucket `B` with a known beat price.
fn entered(max_trades: &str) -> (AppState, PriceHistory) {
    let cfg = Config::build("btc-5m", false, &env(max_trades)).unwrap();
    let mut s = AppState::new(cfg, false);
    let mut h = PriceHistory::new();
    h.push(PricePoint { price: BEAT, chainlink_ts: B });
    s.observe(B, &h, B);
    assert_eq!(s.next_beat_price, Some(BEAT));
    let slug = format!("btc-updown-5m-{}", B);
    assert!(s.needs_transition(&slug));
    assert!(!s.leaving_market());
    s.reset_market();
    s.enter_market(meta(&slug, B), slug.clone());
    (s, h)
}

#[test]
fn boundary_round_becomes_beat_price() {
    let (s, _) = entered("0");
    assert_eq!(s.beat_price, BEAT);
    assert_eq!(s.next_beat_price, None);
    assert_eq!(s.cached_slug, format!("btc-updown-5m-{}", B));
}

#[test]
fn open_market_asks_for_display_book() {
    let (mut s, _) = entered("0");
    assert_eq!(s.begin_tick(B + 10, B), TickAction::FetchDisplayBook);
    s.on_display_book(Some(book(vec![OrderLevel { price: 500_000, size: 1 }])), B + 10);
    assert_eq!(s.orderbook.up.asks.len(), 1);
    assert!(matches!(s.status, Status::Active { secs_left: 290, .. }));
}

#[test]
fn market_ends_up_when_end_price_is_higher() {
    let (mut s, mut h) = entered("0");
    let b2 = B + 300;
    h.push(PricePoint { price: BEAT + 1, chainlink_ts: b2 });
    s.observe(b2, &h, b2);
    assert_eq!(s.begin_tick(b2, b2), TickAction::Nothing);
    assert_eq!(s.phase, MarketPhase::JustEnded { ended_at: b2, winner: Outcome::Up, end_btc_price: BEAT + 1 });
    assert_eq!(s.post_market_winner, Some(Outcome::Up));
    assert_eq!(s.post_market_beat_price, BEAT);
}

#[test]
fn market_ends_down_when_prices_are_equal() {
    let (mut s, mut h) = entered("0");
    let b2 = B + 300;
    h.push(PricePoint { price: BEAT, chainlink_ts: b2 });
    s.observe(b2, &h, b2);
    s.begin_tick(b2, b2);
    assert_eq!(s.post_market_winner, Some(Outcome::Down));
}

#[test]
fn late_boundary_round_redecides_winner() {
    let (mut s, mut h) = entered("0");
    let b2 = B + 300;
    // the boundary round has not arrived: the latest price (lower) decides for now
    h.push(PricePoint { price: BEAT - 5, chainlink_ts: b2 - 1 });
    s.observe(b2, &h, b2);
    assert_eq!(s.next_beat_price, None);
    s.begin_tick(b2, b2);
    assert_eq!(s.post_market_winner, Some(Outcome::Down));
    // it arrives a moment later, above the beat price
    h.push(PricePoint { price: BEAT + 7, chainlink_ts: b2 });
    s.observe(b2, &h, b2 + 1);
    assert_eq!(s.post_market_end_price, BEAT + 7);
    assert_eq!(s.post_market_winner, Some(Outcome::Up));
}

#[test]
fn post_market_window_trades_winner_and_closes() {
    let (mut s, mut h) = entered("0");
    let b2 = B + 300;
    h.push(PricePoint { price: BEAT + 1, chainlink_ts: b2 });
    s.observe(b2, &h, b2);
    s.begin_tick(b2, b2);
    let slug2 = format!("btc-updown-5m-{}", b2);
    assert!(!s.needs_transition(&slug2));
    assert_eq!(s.begin_tick(b2 + 1, b2), TickAction::FetchTradingBook { winner: Outcome::Up });
    let asks = vec![
        OrderLevel { price: 1_000_000, size: 10_000_000 },
        OrderLevel { price: 950_000, size: 100_000_000 },
        OrderLevel { price: 990_000, size: 50_000_000 },
    ];
    let tradeable = s.on_trading_book(book(asks), Outcome::Up, b2 + 1);
    assert_eq!(tradeable.len(), 2);
    assert_eq!(tradeable[0].price, 950_000);
    assert!(s.post_market_orderbook.is_some());
    let j = s.next_attempt(&tradeable, 0).unwrap();
    assert_eq!(j, 0);
    let params = s.buy_params(tradeable[j], Outcome::Up);
    assert_eq!(params.token_id, "111");
    assert_eq!(params.shares, 10_526_315);
    assert_eq!(params.ask_price, 950_000);
    assert_eq!(params.slippage_buffer, 20_000);
    let fill = TestExecutor.execute_buy(&params).unwrap();
    let t = s.record_fill(fill, Outcome::Up, b2 + 1, false);
    assert_eq!(t.usdc_spent, 9_999_999);
    assert_eq!(s.bot_trades.len(), 1);
    assert_eq!(s.all_trades.len(), 1);
    assert_eq!(s.post_market_trades.len(), 1);
    // the window closes after 25 seconds
    assert_eq!(s.begin_tick(b2 + 25, b2), TickAction::Nothing);
    assert_eq!(s.phase, MarketPhase::Transitioning);
    assert!(s.needs_transition(&slug2));
    assert!(s.leaving_market());
    let settled = s.settle_trades(None);
    assert_eq!(settled.len(), 1);
    assert!(!settled[0].resolved);
    assert_eq!(settled[0].pnl, 10_526_315 - 9_999_999);
    assert_eq!(settled[0].winner, Some(Outcome::Up));
    let lost = s.settle_trades(Some(Outcome::Down));
    assert_eq!(lost[0].pnl, -9_999_999);
    assert!(lost[0].resolved);
    s.reset_market();
    assert_eq!(s.phase, MarketPhase::Active);
    assert!(s.bot_trades.is_empty());
    assert!(s.post_market_orderbook.is_none());
    assert_eq!(s.all_trades.len(), 1);
    s.enter_market(meta(&slug2, b2), slug2.clone());
    assert_eq!(s.beat_price, BEAT + 1);
}

#[test]
fn trade_limit_stops_buying() {
    let (mut s, mut h) = entered("1");
    let b2 = B + 300;
    h.push(PricePoint { price: BEAT + 1, chainlink_ts: b2 });
    s.observe(b2, &h, b2);
    s.begin_tick(b2, b2);
    assert_eq!(s.begin_tick(b2 + 1, b2), TickAction::FetchTradingBook { winner: Outcome::Up });
    let tradeable = s.on_trading_book(book(vec![OrderLevel { price: 500_000, size: 1 }]), Outcome::Up, b2 + 1);
    let params = s.buy_params(tradeable[0], Outcome::Up);
    let fill = TestExecutor.execute_buy(&params).unwrap();
    s.record_fill(fill, Outcome::Up, b2 + 1, false);
    assert_eq!(s.begin_tick(b2 + 2, b2), TickAction::Nothing);
    assert!(matches!(s.status, Status::MaxTradesReached { count: 1, max: 1, .. }));
}

#[test]
fn no_trading_without_beat_price() {
    let cfg = Config::build("btc-5m", false, &env("0")).unwrap();
    let mut s = AppState::new(cfg, false);
    let h = PriceHistory::new();
    s.observe(B, &h, B);
    let slug = format!("btc-updown-5m-{}", B);
    s.enter_market(meta(&slug, B), slug.clone());
    assert_eq!(s.beat_price, 0);
    s.begin_tick(B + 300, B + 300);
    assert_eq!(s.post_market_winner, Some(Outcome::Down));
    assert_eq!(s.begin_tick(B + 301, B + 300), TickAction::Nothing);
    assert!(matches!(s.status, Status::SkippingUnknownBeat { remaining: 24 }));
}

#[test]
fn started_mid_market_keeps_beat_unknown() {
    let cfg = Config::build("btc-5m", false, &env("0")).unwrap();
    let mut s = AppState::new(cfg, false);
    let mut h = PriceHistory::new();
    h.push(PricePoint { price: 500, chainlink_ts: B + 7 });
    s.observe(B, &h, B + 7);
    s.finish_tick(3);
    assert_eq!(s.beat_price, 0);
    let slug = format!("btc-updown-5m-{}", B);
    s.enter_market(meta(&slug, B), slug.clone());
    s.finish_tick(3);
    assert_eq!(s.beat_price, 0);
    assert_eq!(s.last_tick_ms, 3);
    // the market ends without a known beat price: nothing is bought
    let b2 = B + 300;
    h.push(PricePoint { price: 900, chainlink_ts: b2 });
    s.observe(b2, &h, b2);
    s.begin_tick(b2, b2);
    assert_eq!(s.begin_tick(b2 + 1, b2), TickAction::Nothing);
    assert!(matches!(s.status, Status::SkippingUnknownBeat { .. }));
    // the next market starts from the boundary round
    assert_eq!(s.next_beat_price, Some(900));
}

#[test]
fn late_boundary_round_is_the_side_traded() {
    let (mut s, mut h) = entered("0");
    let b2 = B + 300;
    h.push(PricePoint { price: BEAT - 5, chainlink_ts: b2 - 1 });
    s.observe(b2, &h, b2);
    s.begin_tick(b2, b2);
    assert_eq!(s.post_market_winner, Some(Outcome::Down));
    h.push(PricePoint { price: BEAT + 7, chainlink_ts: b2 });
    s.observe(b2, &h, b2 + 1);
    assert_eq!(s.post_market_winner, Some(Outcome::Up));
    assert_eq!(s.begin_tick(b2 + 1, b2), TickAction::FetchTradingBook { winner: Outcome::Up });
}

#[test]
fn level_walk_skips_levels_under_a_dollar() {
    let mut e = env("0");
    e.trade_amount = Some("1.5".to_string());
    let cfg = Config::build("btc-5m", false, &e).unwrap();
    let s = AppState::new(cfg, false);
    // a budget of 1.5 USDC buys a full dollar everywhere
    let levels = vec![OrderLevel { price: 0, size: 1 }, OrderLevel { price: 600_000, size: 1 }];
    assert_eq!(s.next_attempt(&levels, 0), Some(1));
    assert_eq!(s.next_attempt(&levels, 2), None);
    assert!(!worth_an_order(999_999, 500_000));
    assert!(worth_an_order(1_000_000, 500_000));
    assert!(!worth_an_order(1_000_000, 0));
    assert_eq!(shares_to_buy(1_000_000, 300_000), 3_333_333);
    // a one-dollar budget buys a dollar at 0.30 (3.33.. shares)
    assert!(worth_an_order(1_000_000, 300_000));
    assert_eq!(s.after_refusal(0), Some(1));
    assert_eq!(s.after_refusal(usize::MAX), None);
}

#[test]
fn window_time_left() {
    assert_eq!(remaining_secs(110, 100, 25), 15);
    assert_eq!(remaining_secs(130, 100, 25), 0);
}

#[test]
fn transitions_wait_for_the_window() {
    let (mut s, _) = entered("0");
    s.phase = MarketPhase::JustEnded { ended_at: B, winner: Outcome::Up, end_btc_price: 1 };
    assert!(!s.needs_transition("other"));
    s.phase = MarketPhase::Transitioning;
    assert!(s.needs_transition("other"));
    assert!(!s.needs_transition(&format!("btc-updown-5m-{}", B)));
}

#[test]
fn errors_show_in_status() {
    let (mut s, _) = entered("0");
    s.record_error("boom".to_string());
    assert!(matches!(s.status, Status::Error(ref m) if m == "boom"));
}

#[test]
fn one_buy_at_half_a_dollar() {
    let (mut s, mut h) = entered("0");
    let b2 = B + 300;
    h.push(PricePoint { price: BEAT + 100_000_000, chainlink_ts: b2 });
    s.observe(b2, &h, b2);
    s.begin_tick(b2, b2);
    assert_eq!(s.begin_tick(b2 + 1, b2), TickAction::FetchTradingBook { winner: Outcome::Up });
    let asks = vec![OrderLevel { price: 500_000, size: 100_000_000 }, OrderLevel { price: 600_000, size: 100_000_000 }];
    let tradeable = s.on_trading_book(book(asks), Outcome::Up, b2 + 1);
    let i = s.next_attempt(&tradeable, 0).unwrap();
    assert_eq!(i, 0);
    let params = s.buy_params(tradeable[i], Outcome::Up);
    assert_eq!(params.token_id, "111");
    assert_eq!(params.shares, 20_000_000);
    assert_eq!(params.ask_price, 500_000);
    assert_eq!(params.slippage_buffer, 20_000);
    let fill = TestExecutor.execute_buy(&params).unwrap();
    let t = s.record_fill(fill, Outcome::Up, b2 + 1, false);
    assert_eq!((t.shares, t.usdc_spent, t.fill_price, t.outcome, t.is_live), (20_000_000, 10_000_000, 500_000, Outcome::Up, false));
    assert_eq!(s.bot_trades.len(), 1);
    assert_eq!(s.all_trades.len(), 1);
    assert_eq!(s.post_market_trades.len(), 1);
}

#[test]
fn walk_stops_after_a_fill_and_moves_on_after_a_refusal() {
    let (mut s, mut h) = entered("0");
    let b2 = B + 300;
    h.push(PricePoint { price: BEAT + 100_000_000, chainlink_ts: b2 });
    s.observe(b2, &h, b2);
    s.begin_tick(b2, b2);
    assert_eq!(s.begin_tick(b2 + 1, b2), TickAction::FetchTradingBook { winner: Outcome::Up });
    let asks = vec![OrderLevel { price: 500_000, size: 100_000_000 }, OrderLevel { price: 600_000, size: 100_000_000 }];
    let tradeable = s.on_trading_book(book(asks), Outcome::Up, b2 + 1);
    assert_eq!(s.walk_step(&tradeable, 0, true), WalkStep::Stop);
    assert_eq!(s.walk_step(&tradeable, 0, false), WalkStep::Try(1));
    assert_eq!(s.walk_step(&tradeable, 1, false), WalkStep::Stop);
    assert_eq!(s.after_refusal(usize::MAX), None);
}

#[test]
fn orders_are_refused_at_the_trade_limit() {
    let (mut s, mut h) = entered("1");
    let b2 = B + 300;
    h.push(PricePoint { price: BEAT + 1, chainlink_ts: b2 });
    s.observe(b2, &h, b2);
    s.begin_tick(b2, b2);
    s.begin_tick(b2 + 1, b2);
    let levels = vec![OrderLevel { price: 500_000, size: 1 }, OrderLevel { price: 0, size: 1 }];
    let tradeable = s.on_trading_book(book(levels.clone()), Outcome::Up, b2 + 1);
    assert_eq!(tradeable.len(), 2);
    // The book holds its asks cheapest first.
    assert_eq!(tradeable[0].price, 0);
    assert!(s.order_at(&tradeable, 0, Outcome::Up).is_none());
    let p = s.order_at(&tradeable, 1, Outcome::Up).unwrap();
    assert_eq!((p.ask_price, p.shares, p.token_id.as_str()), (500_000, 20_000_000, "111"));
    assert!(s.order_at(&tradeable, 2, Outcome::Up).is_none());
    let fill = TestExecutor.execute_buy(&p).unwrap();
    s.record_fill(fill, Outcome::Up, b2 + 1, false);
    assert!(s.order_at(&tradeable, 1, Outcome::Up).is_none());
}

#[test]
fn shares_are_held_at_the_largest_count() {
    assert_eq!(shares_to_buy(u64::MAX, 1), u64::MAX);
    assert_eq!(shares_to_buy(100_000_000_000_000, 500_000), 200_000_000_000_000);
}
