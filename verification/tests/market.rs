use poly_last_new::market::{
    binance_symbol, bucket_of, current_bucket_ts, fallback_symbol, market_slug, market_spec, now_unix,
    rtds_symbol, ticker_price,
};

#[test]
fn market_table_knows_btc_5m() {
    let m = market_spec("btc-5m").unwrap();
    assert_eq!(m.interval_secs, 300);
    assert_eq!(m.slug_prefix, "btc-updown-5m");
    assert_eq!(m.asset, "BTC");
}

#[test]
fn market_table_knows_every_supported_key() {
    let keys = [
        ("btc-5m", 300, "btc-updown-5m", "BTC"),
        ("btc-15m", 900, "btc-updown-15m", "BTC"),
        ("eth-5m", 300, "eth-updown-5m", "ETH"),
        ("eth-15m", 900, "eth-updown-15m", "ETH"),
        ("sol-5m", 300, "sol-updown-5m", "SOL"),
        ("sol-15m", 900, "sol-updown-15m", "SOL"),
        ("bnb-5m", 300, "bnb-updown-5m", "BNB"),
        ("bnb-15m", 900, "bnb-updown-15m", "BNB"),
        ("xrp-5m", 300, "xrp-updown-5m", "XRP"),
        ("xrp-15m", 900, "xrp-updown-15m", "XRP"),
        ("doge-5m", 300, "doge-updown-5m", "DOGE"),
        ("doge-15m", 900, "doge-updown-15m", "DOGE"),
        ("hype-5m", 300, "hype-updown-5m", "HYPE"),
        ("hype-15m", 900, "hype-updown-15m", "HYPE"),
    ];
    for (key, secs, prefix, asset) in keys {
        let m = market_spec(key).unwrap();
        assert_eq!(m.interval_secs, secs);
        assert_eq!(m.slug_prefix, prefix);
        assert_eq!(m.asset, asset);
    }
}

#[test]
fn market_table_refuses_unknown_keys() {
    assert!(market_spec("btc-1h").is_none());
    assert!(market_spec("").is_none());
    assert!(market_spec("BTC-5M").is_none());
}

#[test]
fn bucket_starts_at_interval_multiple() {
    assert_eq!(bucket_of(1_776_795_399, 300), 1_776_795_300);
    assert_eq!(bucket_of(1_776_795_300, 300), 1_776_795_300);
    assert_eq!(bucket_of(1_776_795_299, 300), 1_776_795_000);
    assert_eq!(bucket_of(1_776_795_399, 900), 1_776_795_300);
    assert_eq!(bucket_of(1_776_795_299, 900), 1_776_794_400);
    assert_eq!(bucket_of(0, 300), 0);
}

#[test]
fn bucket_of_negative_time_rounds_toward_zero() {
    assert_eq!(bucket_of(-301, 300), -300);
    assert_eq!(bucket_of(-299, 300), 0);
}

#[test]
fn bucket_of_bucket_is_the_same_bucket() {
    let b = bucket_of(1_776_795_377, 300);
    assert_eq!(bucket_of(b, 300), b);
    assert!(b <= 1_776_795_377 && 1_776_795_377 < b + 300);
}

#[test]
fn slug_names_bucket_start() {
    assert_eq!(market_slug("btc-updown-5m", 1_776_795_300), "btc-updown-5m-1776795300");
    assert_eq!(market_slug("eth-updown-15m", 0), "eth-updown-15m-0");
    assert_eq!(market_slug("x", -5), "x--5");
}

#[test]
fn stream_symbols_per_asset() {
    assert_eq!(rtds_symbol("ETH"), "eth/usd");
    assert_eq!(rtds_symbol("SOL"), "sol/usd");
    assert_eq!(rtds_symbol("BNB"), "bnb/usd");
    assert_eq!(rtds_symbol("XRP"), "xrp/usd");
    assert_eq!(rtds_symbol("DOGE"), "doge/usd");
    assert_eq!(rtds_symbol("HYPE"), "hype/usd");
    assert_eq!(rtds_symbol("BTC"), "btc/usd");
    assert_eq!(rtds_symbol("ADA"), "btc/usd");
}

#[test]
fn exchange_symbols_per_asset() {
    assert_eq!(binance_symbol("ETH"), "ETHUSDT");
    assert_eq!(binance_symbol("BTC"), "BTCUSDT");
    assert_eq!(binance_symbol("SOL"), "BTCUSDT");
    assert_eq!(fallback_symbol("BTC"), Some("BTCUSDT"));
    assert_eq!(fallback_symbol("ETH"), Some("ETHUSDT"));
    assert_eq!(fallback_symbol("SOL"), None);
}

#[test]
fn clock_gives_current_time_and_bucket() {
    let now = now_unix();
    assert!(now > 1_600_000_000);
    let b = current_bucket_ts(300);
    assert_eq!(b % 300, 0);
    assert!(b <= now_unix() && now - b < 600);
}

#[test]
fn ticker_prices_are_read_in_hundred_millionths() {
    assert_eq!(ticker_price("83450.12000000"), Some(8_345_012_000_000));
    assert_eq!(ticker_price("0"), Some(0));
    assert_eq!(ticker_price("-1.5"), None);
    assert_eq!(ticker_price("abc"), None);
}
