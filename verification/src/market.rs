//! Supported markets, bucket clock and market slugs.
use vstd::prelude::*;
use crate::text::{dec_signed, decimal_scaled_i64, i64_to_decimal, parse_decimal_scaled, push_char, push_chars, str_chars, str_eq};

verus! {

/// What a market key selects: bucket length, slug prefix and asset symbol.
pub struct MarketSpec {
    pub interval_secs: u64,
    pub slug_prefix: String,
    pub asset: String,
}

/// The supported market keys: (interval, slug prefix, asset).
pub open spec fn market_table(name: Seq<char>) -> Option<(u64, Seq<char>, Seq<char>)> {
    if name == "btc-5m"@ {
        Some((300, "btc-updown-5m"@, "BTC"@))
    } else if name == "btc-15m"@ {
        Some((900, "btc-updown-15m"@, "BTC"@))
    } else if name == "eth-5m"@ {
        Some((300, "eth-updown-5m"@, "ETH"@))
    } else if name == "eth-15m"@ {
        Some((900, "eth-updown-15m"@, "ETH"@))
    } else if name == "sol-5m"@ {
        Some((300, "sol-updown-5m"@, "SOL"@))
    } else if name == "sol-15m"@ {
        Some((900, "sol-updown-15m"@, "SOL"@))
    } else if name == "bnb-5m"@ {
        Some((300, "bnb-updown-5m"@, "BNB"@))
    } else if name == "bnb-15m"@ {
        Some((900, "bnb-updown-15m"@, "BNB"@))
    } else if name == "xrp-5m"@ {
        Some((300, "xrp-updown-5m"@, "XRP"@))
    } else if name == "xrp-15m"@ {
        Some((900, "xrp-updown-15m"@, "XRP"@))
    } else if name == "doge-5m"@ {
        Some((300, "doge-updown-5m"@, "DOGE"@))
    } else if name == "doge-15m"@ {
        Some((900, "doge-updown-15m"@, "DOGE"@))
    } else if name == "hype-5m"@ {
        Some((300, "hype-updown-5m"@, "HYPE"@))
    } else if name == "hype-15m"@ {
        Some((900, "hype-updown-15m"@, "HYPE"@))
    } else {
        None
    }
}

fn spec_of(interval: u64, prefix: &str, asset: &str) -> (res: MarketSpec)
    ensures
        res.interval_secs == interval,
        res.slug_prefix@ == prefix@,
        res.asset@ == asset@,
{
    MarketSpec { interval_secs: interval, slug_prefix: prefix.to_owned(), asset: asset.to_owned() }
}

/// Looks up a market key; `None` for an unsupported key.
pub fn market_spec(name: &str) -> (res: Option<MarketSpec>)
    ensures
        match market_table(name@) {
            Some(t) => res matches Some(m) && m.interval_secs == t.0 && m.slug_prefix@ == t.1
                && m.asset@ == t.2,
            None => res is None,
        },
{
    if str_eq(name, "btc-5m") {
        Some(spec_of(300, "btc-updown-5m", "BTC"))
    } else if str_eq(name, "btc-15m") {
        Some(spec_of(900, "btc-updown-15m", "BTC"))
    } else if str_eq(name, "eth-5m") {
        Some(spec_of(300, "eth-updown-5m", "ETH"))
    } else if str_eq(name, "eth-15m") {
        Some(spec_of(900, "eth-updown-15m", "ETH"))
    } else if str_eq(name, "sol-5m") {
        Some(spec_of(300, "sol-updown-5m", "SOL"))
    } else if str_eq(name, "sol-15m") {
        Some(spec_of(900, "sol-updown-15m", "SOL"))
    } else if str_eq(name, "bnb-5m") {
        Some(spec_of(300, "bnb-updown-5m", "BNB"))
    } else if str_eq(name, "bnb-15m") {
        Some(spec_of(900, "bnb-updown-15m", "BNB"))
    } else if str_eq(name, "xrp-5m") {
        Some(spec_of(300, "xrp-updown-5m", "XRP"))
    } else if str_eq(name, "xrp-15m") {
        Some(spec_of(900, "xrp-updown-15m", "XRP"))
    } else if str_eq(name, "doge-5m") {
        Some(spec_of(300, "doge-updown-5m", "DOGE"))
    } else if str_eq(name, "doge-15m") {
        Some(spec_of(900, "doge-updown-15m", "DOGE"))
    } else if str_eq(name, "hype-5m") {
        Some(spec_of(300, "hype-updown-5m", "HYPE"))
    } else if str_eq(name, "hype-15m") {
        Some(spec_of(900, "hype-updown-15m", "HYPE"))
    } else {
        None
    }
}

/// Every supported market has a bucket of five or fifteen minutes.
pub proof fn market_intervals_are_five_or_fifteen_minutes(name: Seq<char>)
    requires
        market_table(name) is Some,
    ensures
        market_table(name).unwrap().0 == 300 || market_table(name).unwrap().0 == 900,
{
}

/// The price-stream symbol of an asset; BTC is the fallback.
pub open spec fn rtds_symbol_of(asset: Seq<char>) -> Seq<char> {
    if asset == "ETH"@ {
        "eth/usd"@
    } else if asset == "SOL"@ {
        "sol/usd"@
    } else if asset == "BNB"@ {
        "bnb/usd"@
    } else if asset == "XRP"@ {
        "xrp/usd"@
    } else if asset == "DOGE"@ {
        "doge/usd"@
    } else if asset == "HYPE"@ {
        "hype/usd"@
    } else {
        "btc/usd"@
    }
}

/// The symbol under which the live price stream publishes an asset.
pub fn rtds_symbol(asset: &str) -> (res: &'static str)
    ensures
        res@ == rtds_symbol_of(asset@),
{
    if str_eq(asset, "ETH") {
        "eth/usd"
    } else if str_eq(asset, "SOL") {
        "sol/usd"
    } else if str_eq(asset, "BNB") {
        "bnb/usd"
    } else if str_eq(asset, "XRP") {
        "xrp/usd"
    } else if str_eq(asset, "DOGE") {
        "doge/usd"
    } else if str_eq(asset, "HYPE") {
        "hype/usd"
    } else {
        "btc/usd"
    }
}

/// The exchange ticker symbol of an asset: ETH has its own, all else is BTC.
pub fn binance_symbol(asset: &str) -> (res: &'static str)
    ensures
        res@ == (if asset@ == "ETH"@ { "ETHUSDT"@ } else { "BTCUSDT"@ }),
{
    if str_eq(asset, "ETH") {
        "ETHUSDT"
    } else {
        "BTCUSDT"
    }
}

/// The exchange ticker symbol for the secondary price source, which knows
/// only BTC and ETH.
pub fn fallback_symbol(asset: &str) -> (res: Option<&'static str>)
    ensures
        asset@ == "BTC"@ ==> (res matches Some(s) && s@ == "BTCUSDT"@),
        asset@ == "ETH"@ ==> (res matches Some(s) && s@ == "ETHUSDT"@),
        asset@ != "BTC"@ && asset@ != "ETH"@ ==> res is None,
{
    proof {
        reveal_strlit("BTC");
        reveal_strlit("ETH");
        assert("BTC"@[0] != "ETH"@[0]);
    }
    if str_eq(asset, "BTC") {
        Some("BTCUSDT")
    } else if str_eq(asset, "ETH") {
        Some("ETHUSDT")
    } else {
        None
    }
}

/// The price a ticker reply gives as text, in `10^-8` USD: a decimal that
/// is not negative.
pub open spec fn ticker_price_of(text: Seq<char>) -> Option<u64> {
    match decimal_scaled_i64(text, 8) {
        Some(v) => if v >= 0 { Some(v as u64) } else { None },
        None => None,
    }
}

/// Reads the price text of a ticker reply (see `ticker_price_of`).
pub fn ticker_price(text: &str) -> (res: Option<u64>)
    ensures
        res == ticker_price_of(text@),
{
    match parse_decimal_scaled(text, 8) {
        Some(p) => if p >= 0 { Some(p as u64) } else { None },
        None => None,
    }
}

/// Integer division rounding toward zero, as machine division does.
pub open spec fn trunc_div(a: int, b: int) -> int {
    if a >= 0 {
        a / b
    } else {
        -((-a) / b)
    }
}

/// The start of the bucket of length `interval` that holds second `now`.
pub open spec fn bucket_start(now: int, interval: int) -> int {
    trunc_div(now, interval) * interval
}

/// Seconds since the Unix epoch on this machine's clock (0 before the epoch).
#[verifier::external_body]
pub(crate) fn system_unix_secs() -> u64 {
    std::time::SystemTime::now().duration_since(std::time::UNIX_EPOCH).unwrap_or_default().as_secs()
}

/// The current Unix time in seconds.
pub fn now_unix() -> i64 {
    system_unix_secs() as i64
}

/// Start of the bucket of `interval` seconds that holds `now`.
pub fn bucket_of(now: i64, interval_secs: u64) -> (res: i64)
    requires
        0 < interval_secs <= i64::MAX,
    ensures
        res == bucket_start(now as int, interval_secs as int),
{
    let iv: i64 = interval_secs as i64;
    let q: i64 = now / iv;
    proof {
        lemma_bucket_fits(now as int, iv as int);
    }
    q * iv
}

proof fn lemma_bucket_fits(now: int, iv: int)
    requires
        0 < iv,
        i64::MIN <= now <= i64::MAX,
    ensures
        i64::MIN <= bucket_start(now, iv) <= i64::MAX,
        now >= 0 ==> 0 <= bucket_start(now, iv) <= now,
        now < 0 ==> now <= bucket_start(now, iv) <= 0,
{
    if now >= 0 {
        assert(0 <= (now / iv) * iv <= now) by (nonlinear_arith)
            requires now >= 0, iv > 0;
    } else {
        let m = -now;
        assert(0 <= (m / iv) * iv <= m) by (nonlinear_arith)
            requires m > 0, iv > 0;
        assert(bucket_start(now, iv) == -((m / iv) * iv)) by (nonlinear_arith)
            requires bucket_start(now, iv) == (-(m / iv)) * iv;
    }
}

/// Start of the current bucket of `interval_secs` seconds.
pub fn current_bucket_ts(interval_secs: u64) -> (res: i64)
    requires
        0 < interval_secs <= i64::MAX,
    ensures
        exists|now: int| i64::MIN <= now <= i64::MAX && res == bucket_start(now, interval_secs as int),
{
    let now = now_unix();
    bucket_of(now, interval_secs)
}

/// A bucket start is a multiple of the interval and lies in the interval
/// that ends after `now`: `start <= now < start + interval` (for `now >= 0`).
pub proof fn bucket_start_contains_now(now: int, interval: int)
    requires
        now >= 0,
        interval > 0,
    ensures
        bucket_start(now, interval) % interval == 0,
        bucket_start(now, interval) <= now < bucket_start(now, interval) + interval,
{
    assert(bucket_start(now, interval) == (now / interval) * interval);
    assert((now / interval) * interval <= now < (now / interval) * interval + interval) by (nonlinear_arith)
        requires now >= 0, interval > 0;
    assert(((now / interval) * interval) % interval == 0) by (nonlinear_arith)
        requires interval > 0;
}

/// Taking the bucket of a bucket start gives the same start back.
pub proof fn bucket_start_idempotent(now: int, interval: int)
    requires
        now >= 0,
        interval > 0,
    ensures
        bucket_start(bucket_start(now, interval), interval) == bucket_start(now, interval),
{
    let b = (now / interval) * interval;
    assert(b >= 0) by (nonlinear_arith)
        requires now >= 0, interval > 0, b == (now / interval) * interval;
    assert((b / interval) * interval == b) by (nonlinear_arith)
        requires interval > 0, b == (now / interval) * interval;
}

/// The market slug of a bucket: `{prefix}-{bucket start}`.
pub open spec fn slug_of(prefix: Seq<char>, ts: int) -> Seq<char> {
    prefix + seq!['-'] + dec_signed(ts)
}

/// Builds the slug `{prefix}-{ts}` that names a market bucket.
pub fn market_slug(prefix: &str, ts: i64) -> (res: String)
    ensures
        res@ == slug_of(prefix@, ts as int),
{
    let mut res = prefix.to_owned();
    push_char(&mut res, '-');
    let digits = i64_to_decimal(ts);
    let dc = str_chars(digits.as_str());
    push_chars(&mut res, &dc);
    res
}

} // verus!
