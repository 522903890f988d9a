//! Run settings: the market and trading limits.
use vstd::prelude::*;
use crate::market::{market_spec, market_table};
use crate::text::{str_chars, decimal_scaled, decimal_scaled_i64, is_decimal_number, parse_decimal_scaled, parse_usize, unsigned_value};

verus! {

/// Settings of one run.
#[derive(Clone, Debug)]
pub struct Config {
    pub market: String,
    pub interval_secs: u64,
    pub slug_prefix: String,
    pub asset: String,
    /// USDC to spend per trade, in millionths.
    pub order_usdc: u64,
    /// Added to the ask when placing orders, in millionths.
    pub slippage_buffer: i64,
    pub poll_ms: u64,
    /// Seconds to keep the post-market window open.
    pub post_market_secs: u64,
    /// Orders per market; 0 means no limit.
    pub max_trades_per_market: usize,
    /// Ask levels to advance after a level is skipped or refused.
    pub order_level_skip: usize,
    pub private_key: Option<String>,
    pub builder_code: Option<String>,
}

/// The settings the environment holds, each absent when unset.
#[derive(Clone, Debug)]
pub struct EnvSettings {
    pub trade_amount: Option<String>,
    pub order_usdc: Option<String>,
    pub slippage_buffer: Option<String>,
    pub max_trades: Option<String>,
    pub max_trades_per_market: Option<String>,
    pub private_key: Option<String>,
    pub builder_code: Option<String>,
}

/// Why the settings are refused.
#[derive(Clone, Debug, PartialEq, Eq)]
pub enum ConfigError {
    UnknownMarket(String),
    TradeAmountNotNumber,
    TradeAmountNotPositive,
    /// Beyond what an `i64` of millionths of USDC holds.
    TradeAmountTooLarge,
    SlippageNotNumber,
    MaxTradesNotWholeNumber,
    MissingPrivateKey,
}

/// The first of two settings that is present, else the default text.
pub open spec fn setting_or(primary: Option<String>, alias: Option<String>, default: Seq<char>) -> Seq<char> {
    match primary {
        Some(v) => v@,
        None => match alias {
            Some(v) => v@,
            None => default,
        },
    }
}

pub open spec fn trade_amount_text(env: EnvSettings) -> Seq<char> {
    setting_or(env.trade_amount, env.order_usdc, "10.0"@)
}

pub open spec fn slippage_text(env: EnvSettings) -> Seq<char> {
    setting_or(env.slippage_buffer, None, "0.02"@)
}

pub open spec fn max_trades_text(env: EnvSettings) -> Seq<char> {
    setting_or(env.max_trades, env.max_trades_per_market, "0"@)
}

/// The trade amount is a number above zero that an `i64` of millionths of
/// USDC holds.
pub open spec fn amount_ok(env: EnvSettings) -> bool {
    decimal_scaled_i64(trade_amount_text(env), 6) matches Some(a) && 0 < a
}

/// The trade amount is a number beyond what an `i64` of millionths of USDC
/// holds (about 9.2 trillion USDC).
pub open spec fn amount_too_large(env: EnvSettings) -> bool {
    decimal_scaled(trade_amount_text(env), 6) matches Some(a) && a > i64::MAX
}

/// The trade amount is a number, but not above zero.
pub open spec fn amount_not_positive(env: EnvSettings) -> bool {
    decimal_scaled(trade_amount_text(env), 6) matches Some(a) && a <= 0
}

/// The trade limit is a whole number that fits a `usize`.
pub open spec fn max_trades_ok(env: EnvSettings) -> bool {
    unsigned_value(max_trades_text(env)) matches Some(v) && v <= usize::MAX
}

/// Settings a run may use: a known interval, and limits the engine relies on.
pub open spec fn valid_config(c: Config) -> bool {
    &&& 0 < c.interval_secs <= i64::MAX
}

fn pick(primary: &Option<String>, alias: &Option<String>, default: &str) -> (res: String)
    ensures
        res@ == setting_or(*primary, *alias, default@),
{
    match primary {
        Some(v) => v.clone(),
        None => match alias {
            Some(v) => v.clone(),
            None => default.to_owned(),
        },
    }
}

impl Config {
    /// Builds the settings for `market` from the environment's values. The
    /// market key must be supported; `TRADE_AMOUNT` (or `ORDER_USDC`,
    /// default 10.0) must be a positive number; `SLIPPAGE_BUFFER` (default
    /// 0.02) a number; `MAX_TRADES` (or `MAX_TRADES_PER_MARKET`, default 0) a
    /// whole number; live runs need a private key. Checks run in that order.
    pub fn build(market: &str, require_credentials: bool, env: &EnvSettings) -> (res: Result<Config, ConfigError>)
        ensures
            market_table(market@) is None ==> (res matches Err(ConfigError::UnknownMarket(m)) && m@ == market@),
            market_table(market@) is Some && decimal_scaled(trade_amount_text(*env), 6) is None
                ==> res matches Err(ConfigError::TradeAmountNotNumber),
            market_table(market@) is Some && amount_not_positive(*env) ==> res matches Err(ConfigError::TradeAmountNotPositive),
            market_table(market@) is Some && amount_too_large(*env) ==> res matches Err(ConfigError::TradeAmountTooLarge),
            market_table(market@) is Some && amount_ok(*env) && decimal_scaled_i64(slippage_text(*env), 6) is None
                ==> res matches Err(ConfigError::SlippageNotNumber),
            market_table(market@) is Some && amount_ok(*env) && decimal_scaled_i64(slippage_text(*env), 6) is Some
                && !max_trades_ok(*env) ==> res matches Err(ConfigError::MaxTradesNotWholeNumber),
            market_table(market@) is Some && amount_ok(*env) && decimal_scaled_i64(slippage_text(*env), 6) is Some
                && max_trades_ok(*env) && require_credentials && env.private_key is None
                ==> res matches Err(ConfigError::MissingPrivateKey),
            res matches Ok(c) ==> {
                &&& market_table(market@) matches Some(t)
                &&& c.market@ == market@
                &&& c.interval_secs == t.0 && c.slug_prefix@ == t.1 && c.asset@ == t.2
                &&& decimal_scaled_i64(trade_amount_text(*env), 6) == Some(c.order_usdc as int)
                &&& 0 < c.order_usdc
                &&& decimal_scaled_i64(slippage_text(*env), 6) == Some(c.slippage_buffer as int)
                &&& unsigned_value(max_trades_text(*env)) == Some(c.max_trades_per_market as nat)
                &&& c.poll_ms == 200 && c.post_market_secs == 25 && c.order_level_skip == 1
                &&& (require_credentials ==> c.private_key == env.private_key && c.builder_code == env.builder_code)
                &&& (!require_credentials ==> c.private_key is None && c.builder_code is None)
                &&& valid_config(c)
            },
            market_table(market@) is Some && amount_ok(*env) && decimal_scaled_i64(slippage_text(*env), 6) is Some
                && max_trades_ok(*env) && (require_credentials ==> env.private_key is Some) ==> res is Ok,
    {
        let spec = match market_spec(market) {
            Some(s) => s,
            None => return Err(ConfigError::UnknownMarket(market.to_owned())),
        };
        let amount_text = pick(&env.trade_amount, &env.order_usdc, "10.0");
        let order_usdc = match parse_decimal_scaled(amount_text.as_str(), 6) {
            Some(v) => v,
            None => {
                if !is_decimal_number(amount_text.as_str()) {
                    return Err(ConfigError::TradeAmountNotNumber);
                }
                let tc = str_chars(amount_text.as_str());
                let negative = tc.len() > 0 && tc[0] == '-';
                if negative {
                    return Err(ConfigError::TradeAmountNotPositive);
                }
                return Err(ConfigError::TradeAmountTooLarge);
            },
        };
        if order_usdc <= 0 {
            return Err(ConfigError::TradeAmountNotPositive);
        }
        let slip_text = pick(&env.slippage_buffer, &None, "0.02");
        let slippage_buffer = match parse_decimal_scaled(slip_text.as_str(), 6) {
            Some(v) => v,
            None => return Err(ConfigError::SlippageNotNumber),
        };
        let max_text = pick(&env.max_trades, &env.max_trades_per_market, "0");
        let max_trades = match parse_usize(max_text.as_str()) {
            Some(v) => v,
            None => return Err(ConfigError::MaxTradesNotWholeNumber),
        };
        let (private_key, builder_code) = if require_credentials {
            match &env.private_key {
                Some(pk) => (Some(pk.clone()), env.builder_code.clone()),
                None => return Err(ConfigError::MissingPrivateKey),
            }
        } else {
            (None, None)
        };
        Ok(Config {
            market: market.to_owned(),
            interval_secs: spec.interval_secs,
            slug_prefix: spec.slug_prefix,
            asset: spec.asset,
            order_usdc: order_usdc as u64,
            slippage_buffer,
            poll_ms: 200,
            post_market_secs: 25,
            max_trades_per_market: max_trades,
            order_level_skip: 1,
            private_key,
            builder_code,
        })
    }
}

} // verus!
