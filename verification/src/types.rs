//! Core records: outcomes, market metadata, price candles, trades and phases.
//!
//! Prices of the asset are held in units of `10^-8` USD; outcome-share
//! prices, share counts and USDC amounts in millionths (`10^-6`).
use vstd::prelude::*;
use std::collections::VecDeque;

verus! {

/// One side of an up/down market.
#[derive(Clone, Copy, Debug, PartialEq, Eq, Structural)]
pub enum Outcome {
    Up,
    Down,
}

impl Outcome {
    /// The lowercase name used in logs and by the market API: "up" or "down".
    pub fn name(&self) -> (res: &'static str)
        ensures
            res@ == (match self {
                Outcome::Up => "up"@,
                Outcome::Down => "down"@,
            }),
    {
        match self {
            Outcome::Up => "up",
            Outcome::Down => "down",
        }
    }
}

/// Unix seconds on the system clock, as UTC: 0 before the epoch, held at
/// `i64::MAX` beyond it.
pub(crate) fn utc_now_secs() -> (res: i64)
    ensures
        res >= 0,
{
    let secs = crate::market::system_unix_secs();
    if secs > 0x7fff_ffff_ffff_ffffu64 {
        0x7fff_ffff_ffff_ffffi64
    } else {
        secs as i64
    }
}

/// What is known of one market.
#[derive(Clone, Debug)]
pub struct MarketMeta {
    pub slug: String,
    /// Unix time at which the market closes.
    pub end_time: i64,
    /// Unix time at which the price range opens (the beat-price moment).
    pub event_start_time: i64,
    pub up_token_id: String,
    pub down_token_id: String,
    /// A beat price found in the question text, in `10^-8` USD.
    pub beat_price: Option<u64>,
    pub question: String,
}

impl MarketMeta {
    /// The placeholder before any market is known: empty texts, zero times.
    pub fn empty() -> (res: Self)
        ensures
            res.slug@.len() == 0,
            res.end_time == 0,
            res.event_start_time == 0,
            res.up_token_id@.len() == 0,
            res.down_token_id@.len() == 0,
            res.beat_price is None,
            res.question@.len() == 0,
    {
        MarketMeta {
            slug: String::new(),
            end_time: 0,
            event_start_time: 0,
            up_token_id: String::new(),
            down_token_id: String::new(),
            beat_price: None,
            question: String::new(),
        }
    }

    /// Whether no market is set (its slug is empty).
    pub fn is_empty(&self) -> (res: bool)
        ensures
            res == (self.slug@.len() == 0),
    {
        self.slug.as_str().is_empty()
    }

    /// Seconds from `now` until the close (negative once closed), as machine
    /// arithmetic wraps it.
    pub fn seconds_until_end_at(&self, now: i64) -> (res: i64)
        ensures
            res == self.end_time.wrapping_sub(now),
            i64::MIN <= self.end_time - now <= i64::MAX ==> res == self.end_time - now,
    {
        self.end_time.wrapping_sub(now)
    }

    /// Seconds until the close on the UTC clock: the close minus the
    /// clock's reading, wrapped as machine arithmetic wraps it.
    pub fn seconds_until_end(&self) -> (res: i64)
        ensures
            exists|now: i64| #[trigger] clock_reading(now) && res == self.end_time.wrapping_sub(now),
    {
        let now = utc_now_secs();
        assert(clock_reading(now));
        self.seconds_until_end_at(now)
    }

    /// Whether the market has a close time and `now` is at or past it.
    pub fn has_ended_at(&self, now: i64) -> (res: bool)
        ensures
            res == (self.end_time > 0 && now >= self.end_time),
    {
        self.end_time > 0 && now >= self.end_time
    }

    /// Whether the market has closed on the UTC clock.
    pub fn has_ended(&self) -> (res: bool)
        ensures
            res ==> self.end_time > 0,
            exists|now: i64| #[trigger] clock_reading(now) && res == (self.end_time > 0 && now >= self.end_time),
    {
        let now = utc_now_secs();
        assert(clock_reading(now));
        self.has_ended_at(now)
    }
}

/// A reading of the clock in Unix seconds: never before the epoch.
pub open spec fn clock_reading(t: i64) -> bool {
    t >= 0
}

/// A one-minute OHLC candle of the asset price.
#[derive(Clone, Copy, Debug, PartialEq, Eq, Structural)]
pub struct Candle {
    pub start_ts: i64,
    pub open: u64,
    pub high: u64,
    pub low: u64,
    pub close: u64,
    pub ticks: u32,
}

/// The candle bounds hold: the low is at most the open and the close, and
/// the high at least both.
pub open spec fn candle_consistent(c: Candle) -> bool {
    &&& c.low <= c.open <= c.high
    &&& c.low <= c.close <= c.high
}

impl Candle {
    /// A candle opened by one price.
    pub fn new(ts: i64, price: u64) -> (res: Self)
        ensures
            res == (Candle { start_ts: ts, open: price, high: price, low: price, close: price, ticks: 1 }),
    {
        Candle { start_ts: ts, open: price, high: price, low: price, close: price, ticks: 1 }
    }

    /// Takes one more price into the candle.
    pub fn update(&mut self, price: u64)
        ensures
            final(self).start_ts == old(self).start_ts,
            final(self).open == old(self).open,
            final(self).high == (if price > old(self).high { price } else { old(self).high }),
            final(self).low == (if price < old(self).low { price } else { old(self).low }),
            final(self).close == price,
            old(self).ticks < u32::MAX ==> final(self).ticks == old(self).ticks + 1,
            old(self).ticks == u32::MAX ==> final(self).ticks == 0,
    {
        if price > self.high {
            self.high = price;
        }
        if price < self.low {
            self.low = price;
        }
        self.close = price;
        self.ticks = self.ticks.wrapping_add(1);
    }

    /// An arrow for the candle: up when it closed at or above its open.
    pub fn direction(&self) -> (res: &'static str)
        ensures
            res@ == (if self.close >= self.open { "↑"@ } else { "↓"@ }),
    {
        if self.close >= self.open { "↑" } else { "↓" }
    }

    /// Whether the candle closed at or above its open.
    pub fn is_rising(&self) -> (res: bool)
        ensures
            res == (self.close >= self.open),
    {
        self.close >= self.open
    }
}

/// Every candle stays consistent as prices come in.
pub proof fn candle_update_keeps_bounds(c: Candle, price: u64)
    requires
        candle_consistent(c),
    ensures
        candle_consistent(
            Candle {
                high: if price > c.high { price } else { c.high },
                low: if price < c.low { price } else { c.low },
                close: price,
                ..c
            },
        ),
{
}

/// Start of the minute that holds `now`.
pub open spec fn minute_of(now: int) -> int {
    crate::market::bucket_start(now, 60)
}

/// The completed candles after a candle `c` is closed: it is appended and the
/// oldest ones leave until at most `max` remain.
pub open spec fn flushed(s: Seq<Candle>, c: Candle, max: nat) -> Seq<Candle> {
    let t = s.push(c);
    if t.len() > max { t.skip(t.len() - max) } else { t }
}

/// What taking `price` at second `now` does to a candle history: a price
/// of the current candle's minute extends that candle (one more tick);
/// otherwise the current candle, if any, is completed (see `flushed`) and a
/// new one opens at the start of the minute.
pub open spec fn candle_updated_at(before: CandleHistory, after: CandleHistory, price: u64, now: int) -> bool {
    let fresh = Candle { start_ts: minute_of(now) as i64, open: price, high: price, low: price, close: price, ticks: 1 };
    &&& after.max_candles == before.max_candles
    &&& match before.current_candle {
        Some(c) => if c.start_ts == minute_of(now) {
            &&& after.candles@ == before.candles@
            &&& after.current_candle == Some(
                Candle {
                    start_ts: c.start_ts,
                    open: c.open,
                    high: if price > c.high { price } else { c.high },
                    low: if price < c.low { price } else { c.low },
                    close: price,
                    ticks: if c.ticks < u32::MAX { (c.ticks + 1) as u32 } else { 0 },
                },
            )
        } else {
            &&& after.candles@ == flushed(before.candles@, c, before.max_candles as nat)
            &&& after.current_candle == Some(fresh)
        },
        None => {
            &&& after.candles@ == before.candles@
            &&& after.current_candle == Some(fresh)
        },
    }
}

/// Completed candles plus the one being built.
#[derive(Clone, Debug)]
pub struct CandleHistory {
    pub candles: VecDeque<Candle>,
    pub max_candles: usize,
    pub current_candle: Option<Candle>,
}

impl CandleHistory {
    /// An empty history keeping at most `max_candles` completed candles.
    pub fn new(max_candles: usize) -> (res: Self)
        ensures
            res.candles@.len() == 0,
            res.max_candles == max_candles,
            res.current_candle is None,
    {
        CandleHistory { candles: VecDeque::new(), max_candles, current_candle: None }
    }

    /// Takes a price observed at Unix second `now`: it extends the current
    /// candle when that candle is of the same minute; otherwise the current
    /// candle (if any) is completed and a new one opens.
    pub fn update_at(&mut self, price: u64, now: i64)
        ensures
            candle_updated_at(*old(self), *final(self), price, now as int),
    {
        let candle_ts = crate::market::bucket_of(now, 60);
        match self.current_candle {
            Some(c) => {
                if c.start_ts == candle_ts {
                    let mut d = c;
                    d.update(price);
                    self.current_candle = Some(d);
                    return;
                }
                let ghost before = self.candles@;
                self.candles.push_back(c);
                let ghost t = before.push(c);
                assert(self.candles@ == t);
                while self.candles.len() > self.max_candles
                    invariant
                        self.max_candles == old(self).max_candles,
                        t == before.push(c),
                        self.candles@.len() >= self.max_candles ==> self.candles@ == t.skip(
                            t.len() - self.candles@.len(),
                        ),
                        self.candles@.len() < self.max_candles ==> self.candles@ == t,
                        self.candles@.len() <= t.len(),
                    decreases self.candles@.len(),
                {
                    let ghost k = self.candles@;
                    self.candles.pop_front();
                    proof {
                        assert(t.skip(t.len() - k.len()).drop_first() =~= t.skip(t.len() - (k.len() - 1)));
                    }
                }
                proof {
                    if t.len() > self.max_candles {
                        assert(self.candles@.len() == self.max_candles);
                    } else {
                        assert(t.skip(0) =~= t);
                    }
                }
            },
            None => {},
        }
        self.current_candle = Some(Candle::new(candle_ts, price));
    }

    /// Takes a price observed now on the UTC clock.
    pub fn update(&mut self, price: u64)
        ensures
            exists|now: i64| #[trigger] clock_reading(now) && candle_updated_at(*old(self), *final(self), price, now as int),
    {
        let now = utc_now_secs();
        assert(clock_reading(now));
        self.update_at(price, now);
    }

    /// The completed candles, oldest first.
    pub fn last_completed(&self) -> (res: Vec<Candle>)
        ensures
            res@ == self.candles@,
    {
        let mut res: Vec<Candle> = Vec::new();
        let mut i: usize = 0;
        while i < self.candles.len()
            invariant
                i <= self.candles@.len(),
                res@ == self.candles@.take(i as int),
            decreases self.candles@.len() - i,
        {
            res.push(self.candles[i]);
            assert(self.candles@.take(i + 1) =~= self.candles@.take(i as int).push(self.candles@[i as int]));
            i = i + 1;
        }
        assert(self.candles@.take(i as int) =~= self.candles@);
        res
    }
}

/// A purchase that was filled.
#[derive(Clone, Debug)]
pub struct BotTrade {
    /// Unix seconds of the fill.
    pub ts: i64,
    pub market_slug: String,
    pub outcome: Outcome,
    pub shares: u64,
    pub usdc_spent: u64,
    pub fill_price: u64,
    pub order_id: String,
    pub is_live: bool,
}

impl BotTrade {
    /// A copy of the record.
    pub fn duplicate(&self) -> (res: Self)
        ensures
            res == *self,
    {
        BotTrade {
            ts: self.ts,
            market_slug: self.market_slug.clone(),
            outcome: self.outcome,
            shares: self.shares,
            usdc_spent: self.usdc_spent,
            fill_price: self.fill_price,
            order_id: self.order_id.clone(),
            is_live: self.is_live,
        }
    }
}

/// A copy of a list of trades.
pub fn copy_trades(v: &Vec<BotTrade>) -> (res: Vec<BotTrade>)
    ensures
        res@ == v@,
{
    let mut out: Vec<BotTrade> = Vec::new();
    let mut i: usize = 0;
    while i < v.len()
        invariant
            i <= v.len(),
            out@ == v@.take(i as int),
        decreases v.len() - i,
    {
        out.push(v[i].duplicate());
        assert(v@.take(i + 1) =~= v@.take(i as int).push(v@[i as int]));
        i = i + 1;
    }
    assert(v@.take(i as int) =~= v@);
    out
}

/// The result of one market for one trade.
#[derive(Clone, Debug)]
pub struct MarketPnl {
    pub slug: String,
    pub beat_price: u64,
    pub end_price: u64,
    /// `None` when the winner was never determined.
    pub winner: Option<Outcome>,
    pub our_outcome: Outcome,
    pub shares_bought: u64,
    pub usdc_spent: u64,
    /// In millionths of USDC.
    pub pnl: i128,
    pub resolved: bool,
}

/// What the executor is asked to buy.
#[derive(Clone, Debug)]
pub struct BuyParams {
    pub token_id: String,
    pub outcome: Outcome,
    pub shares: u64,
    pub ask_price: u64,
    pub slippage_buffer: i64,
}

/// What an executor reports of a fill.
#[derive(Clone, Debug)]
pub struct ExecResult {
    pub fill_price: u64,
    pub shares: u64,
    pub usdc: u64,
    pub order_id: String,
    pub notes: String,
}

/// Where a market is in its life.
#[derive(Clone, Copy, Debug, PartialEq, Eq, Structural)]
pub enum MarketPhase {
    /// The market is open.
    Active,
    /// The market has just ended; winner asks below $1.00 are bought for a
    /// limited window.
    JustEnded { ended_at: i64, winner: Outcome, end_btc_price: u64 },
    /// Waiting for the next market.
    Transitioning,
}

impl Default for MarketPhase {
    /// A market starts open.
    fn default() -> (res: Self)
        ensures
            res == MarketPhase::Active,
    {
        MarketPhase::Active
    }
}

} // verus!
