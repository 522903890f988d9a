use poly_last_new::book::{OrderLevel, Orderbook, TokenBook};
use poly_last_new::engine::Status;
use poly_last_new::frame::{render_frame, status_line_text, FrameInput};
use poly_last_new::types::{BotTrade, CandleHistory, MarketPhase, Outcome};

const NOW: i64 = 1_700_000_000;

fn input() -> FrameInput {
    let mut candles = CandleHistory::new(10);
    candles.update_at(8_345_000_000_000, NOW);
    FrameInput {
        asset: "BTC".to_string(),
        is_live: false,
        market_slug: "btc-updown-5m-1699999800".to_string(),
        end_time: NOW + 65,
        poll_count: 7,
        usdc_balance: 0,
        wallet_address: String::new(),
        beat_price: 8_345_000_000_000,
        price: 8_346_000_000_000,
        candles,
        book: Orderbook {
            up: TokenBook::from_levels(
                vec![OrderLevel { price: 500_000, size: 100_000_000 }, OrderLevel { price: 600_000, size: 100_000_000 }],
                vec![],
            ),
            down: TokenBook::empty(),
            fetched_at: NOW,
        },
        phase: MarketPhase::Active,
        post_market_secs: 25,
        post_market_book: None,
        post_market_winner: None,
        post_market_beat: 0,
        post_market_end: 0,
        post_market_trades: vec![],
        bot_trades: vec![],
        status: Status::Initializing,
        last_tick_ms: 12,
    }
}

fn lines(frame: &str) -> Vec<String> {
    assert!(frame.starts_with("\x1B[H"));
    assert!(frame.ends_with("\x1B[0J"));
    let body = &frame[3..frame.len() - 4];
    let mut out: Vec<String> = body.split("\x1b[K\n").map(|s| s.to_string()).collect();
    assert_eq!(out.pop().as_deref(), Some(""));
    out
}

#[test]
fn frame_shows_prices_candles_and_books() {
    let l = lines(&render_frame(&input(), NOW));
    assert_eq!(l[1], format!("\x1b[1m\x1b[36m║  BTC Polymarket Last-Minute Bot  ─  TEST (paper){}\x1b[36m║\x1b[0m", " ".repeat(20)));
    assert_eq!(l[3], "  \x1b[2mTime   :\x1b[0m 2023-11-14T22:13:20 UTC   Poll #7");
    assert_eq!(l[4], "  \x1b[2mMarket :\x1b[0m btc-updown-5m-1699999800  (\x1b[36m01:05\x1b[0m)");
    assert_eq!(l[7], "  \x1b[33mBeat price   :\x1b[0m      $83450.00");
    assert_eq!(l[8], "  \x1b[37mCurrent price:\x1b[0m \x1b[1m     $83460.00\x1b[0m");
    assert_eq!(l[9], "  \x1b[2mDifference   :\x1b[0m \x1b[32m+$10.00  (+0.012%)\x1b[0m  →  \x1b[1m\x1b[32mUP  ↑\x1b[0m");
    assert_eq!(l[12], "  \x1b[2m[22:13]\x1b[0m  \x1b[32m▲ O:83450.0 H:83450.0 L:83450.0 C:83450.0\x1b[0m");
    assert_eq!(l[15], "  \x1b[1m\x1b[32mUP   asks — 2 level(s)\x1b[0m");
    assert_eq!(l[17], "    0.5000    \x1b[32m   100.000\x1b[0m      $50.00      $50.00");
    assert_eq!(l[18], "    0.6000    \x1b[32m   100.000\x1b[0m      $60.00     $110.00");
    assert_eq!(l[20], "  \x1b[1m\x1b[31mDOWN asks — 0 level(s)\x1b[0m");
    assert_eq!(l[21], "    \x1b[2m(no asks)\x1b[0m");
    assert_eq!(l[23], "  \x1b[2mStatus: \x1b[0mInitializing… connecting to Polymarket RTDS");
    assert_eq!(l[24], "  \x1b[2mtick 12ms  │  Ctrl+C to stop\x1b[0m");
    assert_eq!(l.len(), 25);
}

#[test]
fn frame_after_the_close_shows_the_winner_block() {
    let mut s = input();
    s.is_live = true;
    s.usdc_balance = 12_345_678;
    s.wallet_address = "0x1234567890abcdef".to_string();
    s.phase = MarketPhase::JustEnded { ended_at: NOW - 5, winner: Outcome::Up, end_btc_price: 8_346_000_000_000 };
    s.post_market_winner = Some(Outcome::Up);
    s.post_market_beat = 8_345_000_000_000;
    s.post_market_end = 8_346_000_000_000;
    s.post_market_book = Some(s.book.clone());
    s.post_market_trades = vec![BotTrade {
        ts: NOW,
        market_slug: s.market_slug.clone(),
        outcome: Outcome::Up,
        shares: 20_000_000,
        usdc_spent: 10_000_000,
        fill_price: 500_000,
        order_id: "paper-00000000-0000-4000-8000-000000000000".to_string(),
        is_live: false,
    }];
    let text = render_frame(&s, NOW);
    let l = lines(&text);
    assert_eq!(l[5], "  \x1b[2mWallet :\x1b[0m 0x1234…cdef   \x1b[32m\x1b[1mBalance: $12.35\x1b[0m");
    assert!(l.contains(&"  \x1b[1m\x1b[33m▶ POST-MARKET WINDOW — 20s remaining\x1b[0m".to_string()));
    assert!(l.contains(
        &"  \x1b[1m\x1b[32m══ MARKET ENDED  Winner: UP\x1b[0m\x1b[1m  Beat: $83450.00  End: $83460.00 ══\x1b[32m\x1b[0m".to_string()
    ));
    assert!(l.contains(&"  \x1b[1m\x1b[33mWinner (UP) asks below $1.00 — 2 level(s)\x1b[0m".to_string()));
    assert!(l.contains(&"    \x1b[33m0.5000       100.000      $50.00\x1b[0m".to_string()));
    assert!(l.contains(&"    22:13:20  \x1b[32mUP   \x1b[0m  20.000    $10.00    paper-00000000".to_string()));
}

#[test]
fn status_lines() {
    assert_eq!(
        status_line_text(&Status::Active { secs_left: 65, price: 8_346_000_000_000, beat: 8_345_000_000_000 }),
        "Active  01:05 left  BTC $83460.00  Beat $83450.00  Δ+10.00 (+0.012%)  ↑ UP"
    );
    assert_eq!(
        status_line_text(&Status::Active { secs_left: -65, price: 8_344_000_000_000, beat: 8_345_000_000_000 }),
        "Active  -1:-5 left  BTC $83440.00  Beat $83450.00  Δ-10.00 (-0.012%)  ↓ DOWN"
    );
    assert_eq!(
        status_line_text(&Status::Bought {
            winner: Outcome::Down,
            shares: 20_000_000,
            usdc: 10_000_000,
            beat: 100_000_000,
            end: 99_000_000,
            remaining: 20
        }),
        "Winner: DOWN  Bought 20.000 shares for $10.00  Beat: $1.00  End: $0.99  Window: 20s"
    );
    assert_eq!(
        status_line_text(&Status::MaxTradesReached { winner: Outcome::Up, count: 1, max: 1, remaining: 3 }),
        "Winner: UP  Max trades reached (1/1)  Window: 3s"
    );
    assert_eq!(
        status_line_text(&Status::ActiveWithoutBeat { secs_left: 5, price: 0 }),
        "Active  00:05 left  BTC $0.00  Beat: N/A (started mid-market)"
    );
}

#[test]
fn wallet_is_deriving_until_known() {
    let mut s = input();
    s.is_live = true;
    s.usdc_balance = 999_999;
    let l = lines(&render_frame(&s, NOW));
    assert_eq!(l[5], "  \x1b[2mWallet :\x1b[0m deriving…   \x1b[31m\x1b[1mBalance: $1.00\x1b[0m");
    s.wallet_address = "0xabcdef12".to_string();
    let l = lines(&render_frame(&s, NOW));
    assert_eq!(l[5], "  \x1b[2mWallet :\x1b[0m 0xabcd…ef12   \x1b[31m\x1b[1mBalance: $1.00\x1b[0m");
}
