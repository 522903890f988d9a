use poly_last_new::report::{fixed_i, fixed_u64, pnl_log_header, pnl_log_line, trade_log_header, trade_log_line};
use poly_last_new::types::{BotTrade, Outcome};

fn trade() -> BotTrade {
    BotTrade {
        ts: 1_700_000_000,
        market_slug: "btc-updown-5m-1700000000".to_string(),
        outcome: Outcome::Up,
        shares: 20_000_000,
        usdc_spent: 10_000_000,
        fill_price: 500_000,
        order_id: "paper-abc".to_string(),
        is_live: false,
    }
}

#[test]
fn fixed_places_round_half_to_even() {
    assert_eq!(fixed_u64(125, 2, 1), "1.2");
    assert_eq!(fixed_u64(135, 2, 1), "1.4");
    assert_eq!(fixed_u64(126, 2, 1), "1.3");
    assert_eq!(fixed_u64(8_345_012_345_678, 8, 2), "83450.12");
    assert_eq!(fixed_u64(5, 6, 4), "0.0000");
    assert_eq!(fixed_u64(7, 0, 2), "7.00");
    assert_eq!(fixed_i(-1_234_567, 6, 4), "-1.2346");
    assert_eq!(fixed_i(-1, 6, 2), "-0.00");
}

#[test]
fn trade_log_line_text() {
    assert_eq!(trade_log_header(), "executed_at,market_slug,outcome,shares,usdc_spent,fill_price,order_id,is_live");
    assert_eq!(
        trade_log_line(&trade()),
        "2023-11-14T22:13:20,btc-updown-5m-1700000000,UP,20.0000,10.0000,0.500000,paper-abc,false"
    );
}

#[test]
fn pnl_log_line_text() {
    assert!(pnl_log_header().starts_with("slug,beat_price,end_price,winner,our_outcome"));
    assert_eq!(
        pnl_log_line("btc-updown-5m-1700000000", 8_345_000_000_000, 8_346_000_000_000, Some(Outcome::Up), &trade(), 10_000_000, true),
        "btc-updown-5m-1700000000,83450.00,83460.00,up,up,20.0000,10.0000,0.500000,10.0000,true,2023-11-14T22:13:20,paper-abc"
    );
    assert_eq!(
        pnl_log_line("m", 1, 2, None, &trade(), -10_000_000, false),
        "m,0.00,0.00,,up,20.0000,10.0000,0.500000,-10.0000,false,2023-11-14T22:13:20,paper-abc"
    );
}
