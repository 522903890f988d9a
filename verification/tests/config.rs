use poly_last_new::config::{Config, ConfigError, EnvSettings};

fn env() -> EnvSettings {
    EnvSettings {
        trade_amount: None,
        order_usdc: None,
        slippage_buffer: None,
        max_trades: None,
        max_trades_per_market: None,
        private_key: None,
        builder_code: None,
    }
}

#[test]
fn defaults_for_paper_mode() {
    let c = Config::build("eth-15m", false, &env()).unwrap();
    assert_eq!(c.market, "eth-15m");
    assert_eq!(c.interval_secs, 900);
    assert_eq!(c.slug_prefix, "eth-updown-15m");
    assert_eq!(c.asset, "ETH");
    assert_eq!(c.order_usdc, 10_000_000);
    assert_eq!(c.slippage_buffer, 20_000);
    assert_eq!(c.max_trades_per_market, 0);
    assert_eq!(c.poll_ms, 200);
    assert_eq!(c.post_market_secs, 25);
    assert_eq!(c.order_level_skip, 1);
    assert_eq!(c.private_key, None);
}

#[test]
fn primary_names_win_over_aliases() {
    let mut e = env();
    e.trade_amount = Some("5".to_string());
    e.order_usdc = Some("7".to_string());
    e.max_trades = Some("3".to_string());
    e.max_trades_per_market = Some("9".to_string());
    let c = Config::build("btc-5m", false, &e).unwrap();
    assert_eq!(c.order_usdc, 5_000_000);
    assert_eq!(c.max_trades_per_market, 3);
    let mut e = env();
    e.order_usdc = Some("7".to_string());
    e.max_trades_per_market = Some("9".to_string());
    let c = Config::build("btc-5m", false, &e).unwrap();
    assert_eq!(c.order_usdc, 7_000_000);
    assert_eq!(c.max_trades_per_market, 9);
}

#[test]
fn config_errors() {
    assert!(matches!(Config::build("btc-1h", false, &env()), Err(ConfigError::UnknownMarket(ref m)) if m == "btc-1h"));
    let mut e = env();
    e.trade_amount = Some("ten".to_string());
    assert_eq!(Config::build("btc-5m", false, &e).unwrap_err(), ConfigError::TradeAmountNotNumber);
    e.trade_amount = Some("0".to_string());
    assert_eq!(Config::build("btc-5m", false, &e).unwrap_err(), ConfigError::TradeAmountNotPositive);
    e.trade_amount = Some("-1".to_string());
    assert_eq!(Config::build("btc-5m", false, &e).unwrap_err(), ConfigError::TradeAmountNotPositive);
    e.trade_amount = Some("-1e30".to_string());
    assert_eq!(Config::build("btc-5m", false, &e).unwrap_err(), ConfigError::TradeAmountNotPositive);
    e.trade_amount = Some("1e13".to_string());
    assert_eq!(Config::build("btc-5m", false, &e).unwrap_err(), ConfigError::TradeAmountTooLarge);
    e.trade_amount = Some("100000000".to_string());
    assert_eq!(Config::build("btc-5m", false, &e).unwrap().order_usdc, 100_000_000_000_000);
    let mut e = env();
    e.slippage_buffer = Some("x".to_string());
    assert_eq!(Config::build("btc-5m", false, &e).unwrap_err(), ConfigError::SlippageNotNumber);
    let mut e = env();
    e.max_trades = Some("1.5".to_string());
    assert_eq!(Config::build("btc-5m", false, &e).unwrap_err(), ConfigError::MaxTradesNotWholeNumber);
    assert_eq!(Config::build("btc-5m", true, &env()).unwrap_err(), ConfigError::MissingPrivateKey);
}

#[test]
fn live_mode_takes_credentials() {
    let mut e = env();
    e.private_key = Some("0xabc".to_string());
    e.builder_code = Some("0x01".to_string());
    let c = Config::build("sol-5m", true, &e).unwrap();
    assert_eq!(c.private_key.as_deref(), Some("0xabc"));
    assert_eq!(c.builder_code.as_deref(), Some("0x01"));
    let c = Config::build("sol-5m", false, &e).unwrap();
    assert_eq!(c.private_key, None);
}

#[test]
fn trade_amount_in_exponent_form() {
    let mut e = env();
    e.trade_amount = Some("1e1".to_string());
    let c = Config::build("btc-5m", false, &e).unwrap();
    assert_eq!(c.order_usdc, 10_000_000);
}
