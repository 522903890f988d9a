//! The trading state machine: what happens on every poll of the market.
//!
//! The caller runs the loop: it reads the clock and the price history, hands
//! them in, performs the I/O that an action asks for, and hands back what
//! came of it.
use vstd::prelude::*;
use crate::book::{below_one_dollar, OrderLevel, Orderbook};
use crate::config::{valid_config, Config};
use crate::price::{first_exact, PriceHistory, PricePoint};
use crate::types::{candle_updated_at, copy_trades, BotTrade, CandleHistory, ExecResult, MarketMeta, MarketPhase, MarketPnl, Outcome, BuyParams};
use crate::order::MICROS;

verus! {

/// What the status line reports.
#[derive(Clone, Debug)]
pub enum Status {
    Initializing,
    Error(String),
    WindowClosed,
    WaitingForNextMarket,
    NewMarket { slug: String, beat: u64 },
    MarketEnded { winner: Outcome, beat: u64, end: u64 },
    Active { secs_left: i64, price: u64, beat: u64 },
    ActiveWithoutBeat { secs_left: i64, price: u64 },
    SkippingUnknownBeat { remaining: i64 },
    MaxTradesReached { winner: Outcome, count: usize, max: usize, remaining: i64 },
    OrderbookFetchFailed { winner: Outcome, error: String, remaining: i64 },
    NoAsksBelowOneDollar { winner: Outcome, beat: u64, end: u64, remaining: i64 },
    Bought { winner: Outcome, shares: u64, usdc: u64, beat: u64, end: u64, remaining: i64 },
    NoFill { winner: Outcome, tried: usize, beat: u64, end: u64, remaining: i64 },
}

/// The I/O a tick asks the caller to perform.
#[derive(Clone, Copy, Debug, PartialEq, Eq, Structural)]
pub enum TickAction {
    Nothing,
    /// Read the book of the open market for display.
    FetchDisplayBook,
    /// Read the book to buy the winner's asks.
    FetchTradingBook { winner: Outcome },
}

/// The winner at the close: UP when a beat price is known and the end price
/// is above it; DOWN otherwise.
pub open spec fn decided_winner(beat: u64, end: u64) -> Outcome {
    if beat > 0 && end > beat {
        Outcome::Up
    } else {
        Outcome::Down
    }
}

/// The market is over once the bucket clock has moved past its start.
pub open spec fn market_over(m: MarketMeta, bucket: int) -> bool {
    m.event_start_time > 0 && bucket > m.event_start_time
}

/// Another fill is allowed: there is no limit, or fewer fills than the limit.
pub open spec fn may_trade(count: nat, max: nat) -> bool {
    max == 0 || count < max
}

/// Seconds left in the post-market window, never below zero.
pub open spec fn window_remaining(now: int, ended_at: int, window: int) -> int {
    let r = window - (now - ended_at);
    if r > 0 { r } else { 0 }
}

/// Share count (millionths) that `budget` (millionths of USDC) buys at
/// `price` (millionths).
pub open spec fn shares_for(budget: nat, price: nat) -> nat {
    if price == 0 { 0 } else { (budget * (MICROS as nat)) / price }
}

/// A level is worth an order when the budget buys at least one dollar of
/// it: the shares `budget / price` cost `budget` at that price, so this is a
/// priced level and a budget of at least one dollar.
pub open spec fn worth_ordering(budget: nat, price: nat) -> bool {
    price > 0 && budget >= MICROS as nat
}

/// The next level to try, starting at `from` and moving `skip` levels at a
/// time past levels not worth an order.
pub open spec fn next_attempt_from(levels: Seq<OrderLevel>, from: int, budget: nat, skip: int) -> Option<int>
    decreases (if from < levels.len() { levels.len() - from } else { 0 }),
{
    if skip <= 0 || from >= levels.len() || from < 0 {
        None
    } else if worth_ordering(budget, levels[from].price as nat) {
        Some(from)
    } else {
        next_attempt_from(levels, from + skip, budget, skip)
    }
}

/// Where the walk over the winner's asks goes next.
#[derive(Clone, Copy, Debug, PartialEq, Eq, Structural)]
pub enum WalkStep {
    /// No more orders this poll.
    Stop,
    /// Order at this level next.
    Try(usize),
}

/// The next step after the order at level `i`: a fill ends the walk (one
/// fill per poll); after a refusal the walk moves `skip` levels on and tries
/// the first level there on worth an order, and stops when there is none.
pub open spec fn walk_after(levels: Seq<OrderLevel>, i: int, filled: bool, budget: nat, skip: int) -> WalkStep {
    if filled || i + skip > usize::MAX {
        WalkStep::Stop
    } else {
        match next_attempt_from(levels, i + skip, budget, skip) {
            Some(j) => WalkStep::Try(j as usize),
            None => WalkStep::Stop,
        }
    }
}

/// Profit of one trade: the shares pay one dollar each when its side won.
pub open spec fn trade_pnl(t: BotTrade, winner: Option<Outcome>) -> int {
    if winner == Some(t.outcome) {
        t.shares as int - t.usdc_spent as int
    } else {
        -(t.usdc_spent as int)
    }
}

/// The level step: the configured one, at least one.
pub open spec fn level_skip(configured: usize) -> usize {
    if configured > 1 { configured } else { 1 }
}

/// The side a post-market poll buys: the winner as last decided (the
/// boundary round may have replaced the end price after the close), else the
/// one recorded at the close.
pub open spec fn traded_winner(post_market_winner: Option<Outcome>, at_close: Outcome) -> Outcome {
    match post_market_winner {
        Some(w) => w,
        None => at_close,
    }
}

/// `window_remaining` as an `i64`, held at `i64::MAX`.
pub open spec fn remaining_of(now: i64, ended_at: i64, window: u64) -> i64 {
    let r = window_remaining(now as int, ended_at as int, window as int);
    if r <= i64::MAX { r as i64 } else { i64::MAX }
}

/// When the post-market window opened (0 outside it).
pub open spec fn ended_at_of(phase: MarketPhase) -> i64 {
    match phase {
        MarketPhase::JustEnded { ended_at, .. } => ended_at,
        _ => 0,
    }
}

/// Seconds left in a post-market window that opened at `ended_at`.
pub fn remaining_secs(now: i64, ended_at: i64, window: u64) -> (res: i64)
    ensures
        res == remaining_of(now, ended_at, window),
{
    let r: i128 = window as i128 - (now as i128 - ended_at as i128);
    if r <= 0 {
        0
    } else if r > i64::MAX as i128 {
        i64::MAX
    } else {
        r as i64
    }
}

/// Whether the budget buys at least one dollar at `price`.
pub fn worth_an_order(budget: u64, price: u64) -> (res: bool)
    ensures
        res == worth_ordering(budget as nat, price as nat),
{
    price > 0 && budget >= 1_000_000
}

/// The share count an order asks for: `shares_for`, held at the largest
/// count a `u64` of millionths holds (about 18 trillion shares).
pub open spec fn held_shares(budget: nat, price: nat) -> nat {
    if shares_for(budget, price) > u64::MAX { u64::MAX as nat } else { shares_for(budget, price) }
}

/// Shares (millionths) that `budget` (millionths of USDC) buys at `price`
/// (see `held_shares`).
pub fn shares_to_buy(budget: u64, price: u64) -> (res: u64)
    requires
        price > 0,
    ensures
        res == held_shares(budget as nat, price as nat),
        (res as nat * price as nat) / (MICROS as nat) <= budget,
{
    let b: u128 = budget as u128 * 1_000_000;
    let shares: u128 = b / price as u128;
    assert(shares * price as u128 <= b) by (nonlinear_arith)
        requires price > 0, shares == b / price as u128;
    let held: u128 = if shares > 0xffff_ffff_ffff_ffffu128 { 0xffff_ffff_ffff_ffffu128 } else { shares };
    assert(held * price as u128 <= b) by (nonlinear_arith)
        requires held <= shares, shares * price as u128 <= b;
    assert((held * price as u128) / 1_000_000 <= budget) by (nonlinear_arith)
        requires held * price as u128 <= b, b == budget as u128 * 1_000_000;
    held as u64
}

/// The boundary price known after a poll: a new bucket forgets the old
/// one; while none is known, the round stamped exactly at the latest
/// boundary is taken when the history has it.
pub open spec fn next_beat_after_observe(old_ls: int, old_next: Option<u64>, bucket: int, h: Seq<PricePoint>) -> Option<u64> {
    let crossed = bucket > old_ls;
    let ls = if crossed { bucket } else { old_ls };
    let kept = if crossed { None } else { old_next };
    if kept is None && ls > 0 {
        first_exact(h, ls)
    } else {
        kept
    }
}

/// The beat price a market gets on entry: the boundary price when positive,
/// else 0 (unknown).
pub open spec fn beat_on_entry(next: Option<u64>) -> u64 {
    match next {
        Some(p) => if p > 0 { p } else { 0 },
        None => 0,
    }
}

/// The settings, the market being traded and its beat price are the same.
pub open spec fn same_market(a: AppState, b: AppState) -> bool {
    &&& b.config == a.config
    &&& b.is_live == a.is_live
    &&& b.current_market == a.current_market
    &&& b.cached_slug == a.cached_slug
    &&& b.beat_price == a.beat_price
    &&& b.next_beat_price == a.next_beat_price
    &&& b.last_seen_bucket_ts == a.last_seen_bucket_ts
}

/// The trade lists are the same.
pub open spec fn same_trades(a: AppState, b: AppState) -> bool {
    &&& b.bot_trades@ == a.bot_trades@
    &&& b.all_trades@ == a.all_trades@
    &&& b.post_market_trades@ == a.post_market_trades@
}

/// The snapshot taken when the market ended is the same.
pub open spec fn same_post_market(a: AppState, b: AppState) -> bool {
    &&& b.post_market_orderbook == a.post_market_orderbook
    &&& b.post_market_winner == a.post_market_winner
    &&& b.post_market_end_price == a.post_market_end_price
    &&& b.post_market_beat_price == a.post_market_beat_price
    &&& b.post_market_slug == a.post_market_slug
}

/// The price, candles and poll counters are the same.
pub open spec fn same_prices(a: AppState, b: AppState) -> bool {
    &&& b.btc_price == a.btc_price
    &&& b.candles == a.candles
    &&& b.poll_count == a.poll_count
    &&& b.last_tick_ms == a.last_tick_ms
}

/// The per-market trade limit: with a limit set, the market being traded
/// has at most that many trades, and every trade held is of that market.
pub open spec fn trade_limit_holds(s: AppState) -> bool {
    &&& (s.config.max_trades_per_market == 0 || s.bot_trades@.len() <= s.config.max_trades_per_market)
    &&& forall|i: int| 0 <= i < s.bot_trades@.len() ==> (#[trigger] s.bot_trades@[i]).market_slug@ == s.current_market.slug@
}

/// Everything the bot knows between polls.
pub struct AppState {
    pub config: Config,
    pub is_live: bool,
    pub current_market: MarketMeta,
    pub cached_slug: String,
    /// Latest asset price, `10^-8` USD (0 before the first).
    pub btc_price: u64,
    /// Price at the start of the current market's bucket (0 when unknown).
    pub beat_price: u64,
    pub candles: CandleHistory,
    pub orderbook: Orderbook,
    pub phase: MarketPhase,
    pub bot_trades: Vec<BotTrade>,
    pub all_trades: Vec<BotTrade>,
    pub poll_count: u64,
    pub last_tick_ms: u64,
    pub status: Status,
    /// The round stamped exactly at the latest bucket boundary: the next
    /// market's beat price.
    pub next_beat_price: Option<u64>,
    /// Latest bucket start seen (0 at startup).
    pub last_seen_bucket_ts: i64,
    pub post_market_orderbook: Option<Orderbook>,
    pub post_market_winner: Option<Outcome>,
    pub post_market_end_price: u64,
    pub post_market_beat_price: u64,
    pub post_market_slug: String,
    pub post_market_trades: Vec<BotTrade>,
}

impl AppState {
    /// The state at startup: no market, no prices, no trades.
    pub fn new(config: Config, is_live: bool) -> (res: Self)
        ensures
            res.config == config,
            res.is_live == is_live,
            res.current_market.slug@.len() == 0,
            res.cached_slug@.len() == 0,
            res.btc_price == 0 && res.beat_price == 0,
            res.candles.max_candles == 3,
            res.candles.candles@.len() == 0,
            res.candles.current_candle is None,
            res.orderbook.up.asks@.len() == 0 && res.orderbook.up.bids@.len() == 0,
            res.orderbook.down.asks@.len() == 0 && res.orderbook.down.bids@.len() == 0,
            res.post_market_slug@.len() == 0,
            trade_limit_holds(res),
            res.phase == MarketPhase::Active,
            res.bot_trades@.len() == 0 && res.all_trades@.len() == 0,
            res.poll_count == 0 && res.last_tick_ms == 0,
            res.next_beat_price is None,
            res.last_seen_bucket_ts == 0,
            res.post_market_orderbook is None,
            res.post_market_winner is None,
            res.post_market_end_price == 0 && res.post_market_beat_price == 0,
            res.post_market_trades@.len() == 0,
            res.status == Status::Initializing,
    {
        AppState {
            config,
            is_live,
            current_market: MarketMeta::empty(),
            cached_slug: String::new(),
            btc_price: 0,
            beat_price: 0,
            candles: CandleHistory::new(3),
            orderbook: Orderbook::empty(),
            phase: MarketPhase::Active,
            bot_trades: Vec::new(),
            all_trades: Vec::new(),
            poll_count: 0,
            last_tick_ms: 0,
            status: Status::Initializing,
            next_beat_price: None,
            last_seen_bucket_ts: 0,
            post_market_orderbook: None,
            post_market_winner: None,
            post_market_end_price: 0,
            post_market_beat_price: 0,
            post_market_slug: String::new(),
            post_market_trades: Vec::new(),
        }
    }

    /// Start of a poll: notes a new bucket boundary (forgetting the old
    /// boundary price), takes the newest price, and looks for the round
    /// stamped exactly at the boundary. When that round arrives after the
    /// market has ended, it becomes the end price and the winner is decided
    /// again against the ended market's beat price.
    pub fn observe(&mut self, current_bucket: i64, history: &PriceHistory, now: i64)
        ensures
            ({
                let crossed = current_bucket > old(self).last_seen_bucket_ts;
                let ls = if crossed { current_bucket } else { old(self).last_seen_bucket_ts };
                let kept = if crossed { None } else { old(self).next_beat_price };
                let found = if kept is None && ls > 0 { first_exact(history@, ls as int) } else { None };
                let p = if history@.len() > 0 { history@.last().price } else { 0 };
                &&& final(self).last_seen_bucket_ts == ls
                &&& final(self).next_beat_price == next_beat_after_observe(
                    old(self).last_seen_bucket_ts as int,
                    old(self).next_beat_price,
                    current_bucket as int,
                    history@,
                )
                &&& final(self).btc_price == (if p > 0 { p } else { old(self).btc_price })
                &&& (found is Some && old(self).phase is JustEnded ==> {
                    let bp = found->0;
                    &&& final(self).post_market_end_price == bp
                    &&& final(self).post_market_winner == (if old(self).post_market_beat_price > 0 {
                        Some(if bp > old(self).post_market_beat_price { Outcome::Up } else { Outcome::Down })
                    } else {
                        old(self).post_market_winner
                    })
                })
                &&& (!(found is Some && old(self).phase is JustEnded) ==> {
                    &&& final(self).post_market_end_price == old(self).post_market_end_price
                    &&& final(self).post_market_winner == old(self).post_market_winner
                })
            }),
            ({
                let p = if history@.len() > 0 { history@.last().price } else { 0 };
                &&& p > 0 ==> candle_updated_at(old(self).candles, final(self).candles, p, now as int)
                &&& p == 0 ==> final(self).candles == old(self).candles
            }),
            final(self).poll_count == old(self).poll_count.wrapping_add(1),
            final(self).phase == old(self).phase,
            final(self).beat_price == old(self).beat_price,
            final(self).config == old(self).config,
            final(self).is_live == old(self).is_live,
            final(self).current_market == old(self).current_market,
            final(self).cached_slug == old(self).cached_slug,
            same_trades(*old(self), *final(self)),
            final(self).orderbook == old(self).orderbook,
            final(self).post_market_orderbook == old(self).post_market_orderbook,
            final(self).post_market_beat_price == old(self).post_market_beat_price,
            final(self).post_market_slug == old(self).post_market_slug,
            final(self).status == old(self).status,
            final(self).last_tick_ms == old(self).last_tick_ms,
            trade_limit_holds(*old(self)) ==> trade_limit_holds(*final(self)),
    {
        self.poll_count = self.poll_count.wrapping_add(1);
        if current_bucket > self.last_seen_bucket_ts {
            self.last_seen_bucket_ts = current_bucket;
            self.next_beat_price = None;
        }
        let p = history.current_price();
        if p > 0 {
            self.btc_price = p;
            self.candles.update_at(p, now);
        }
        if self.next_beat_price.is_none() && self.last_seen_bucket_ts > 0 {
            match history.price_exact(self.last_seen_bucket_ts) {
                Some(bp) => {
                    self.next_beat_price = Some(bp);
                    if matches!(self.phase, MarketPhase::JustEnded { .. }) {
                        self.post_market_end_price = bp;
                        if self.post_market_beat_price > 0 {
                            self.post_market_winner = Some(
                                if bp > self.post_market_beat_price { Outcome::Up } else { Outcome::Down },
                            );
                        }
                    }
                },
                None => {},
            }
        }
    }

    /// The phase machine of one poll, given the clock (`now`) and the start
    /// of the current bucket.
    ///
    /// - Open market whose bucket has passed: the market ends. The end price
    ///   is the boundary round when it has arrived, else the latest price;
    ///   the winner is `decided_winner(beat, end)`; the post-market window
    ///   opens at `now` with a snapshot of this market's trades.
    /// - Open market otherwise: ask for the book, for display.
    /// - Ended market whose window (`post_market_secs`) has run out: wait for
    ///   the next market.
    /// - Ended market within its window: nothing without a beat price or once
    ///   the trade limit is reached; else ask for the book, to buy the winner
    ///   as last decided (`traded_winner`).
    /// - Waiting: nothing.
    pub fn begin_tick(&mut self, now: i64, current_bucket: i64) -> (res: TickAction)
        ensures
            same_market(*old(self), *final(self)),
            final(self).bot_trades@ == old(self).bot_trades@,
            final(self).all_trades@ == old(self).all_trades@,
            final(self).orderbook == old(self).orderbook,
            final(self).post_market_orderbook == old(self).post_market_orderbook,
            same_prices(*old(self), *final(self)),
            trade_limit_holds(*old(self)) ==> trade_limit_holds(*final(self)),
            !(old(self).phase is Active && market_over(old(self).current_market, current_bucket as int)) ==> {
                &&& final(self).post_market_trades@ == old(self).post_market_trades@
                &&& final(self).post_market_winner == old(self).post_market_winner
                &&& final(self).post_market_end_price == old(self).post_market_end_price
                &&& final(self).post_market_beat_price == old(self).post_market_beat_price
                &&& final(self).post_market_slug == old(self).post_market_slug
            },
            match old(self).phase {
                MarketPhase::Active => if market_over(old(self).current_market, current_bucket as int) {
                    let end = match old(self).next_beat_price {
                        Some(p) => p,
                        None => old(self).btc_price,
                    };
                    let w = decided_winner(old(self).beat_price, end);
                    &&& res == TickAction::Nothing
                    &&& final(self).status == Status::MarketEnded { winner: w, beat: old(self).beat_price, end }
                    &&& final(self).phase == MarketPhase::JustEnded { ended_at: now, winner: w, end_btc_price: end }
                    &&& final(self).post_market_winner == Some(w)
                    &&& final(self).post_market_end_price == end
                    &&& final(self).post_market_beat_price == old(self).beat_price
                    &&& final(self).post_market_slug@ == old(self).current_market.slug@
                    &&& final(self).post_market_trades@ == old(self).bot_trades@
                } else {
                    &&& res == TickAction::FetchDisplayBook
                    &&& final(self).phase == old(self).phase
                    &&& final(self).status == old(self).status
                },
                MarketPhase::JustEnded { ended_at, winner, .. } => {
                    let remaining = remaining_of(now, ended_at, old(self).config.post_market_secs);
                    let w = traded_winner(old(self).post_market_winner, winner);
                    &&& (now - ended_at >= old(self).config.post_market_secs ==> {
                        &&& res == TickAction::Nothing
                        &&& final(self).phase == MarketPhase::Transitioning
                        &&& final(self).status == Status::WindowClosed
                    })
                    &&& (now - ended_at < old(self).config.post_market_secs ==> {
                        &&& final(self).phase == old(self).phase
                        &&& res == (if old(self).beat_price == 0 || !may_trade(
                            old(self).bot_trades@.len(),
                            old(self).config.max_trades_per_market as nat,
                        ) {
                            TickAction::Nothing
                        } else {
                            TickAction::FetchTradingBook { winner: w }
                        })
                        &&& final(self).status == (if old(self).beat_price == 0 {
                            Status::SkippingUnknownBeat { remaining }
                        } else if !may_trade(old(self).bot_trades@.len(), old(self).config.max_trades_per_market as nat) {
                            Status::MaxTradesReached {
                                winner: w,
                                count: old(self).bot_trades@.len() as usize,
                                max: old(self).config.max_trades_per_market,
                                remaining,
                            }
                        } else {
                            old(self).status
                        })
                    })
                },
                MarketPhase::Transitioning => {
                    &&& res == TickAction::Nothing
                    &&& final(self).phase == old(self).phase
                    &&& final(self).status == Status::WaitingForNextMarket
                },
            },
    {
        match self.phase {
            MarketPhase::Active => {
                let ended = self.current_market.event_start_time > 0
                    && current_bucket > self.current_market.event_start_time;
                if ended {
                    let end_price = match self.next_beat_price {
                        Some(p) => p,
                        None => self.btc_price,
                    };
                    let winner = if self.beat_price > 0 && end_price > self.beat_price {
                        Outcome::Up
                    } else {
                        Outcome::Down
                    };
                    self.post_market_winner = Some(winner);
                    self.post_market_end_price = end_price;
                    self.post_market_beat_price = self.beat_price;
                    self.post_market_slug = self.current_market.slug.clone();
                    self.post_market_trades = copy_trades(&self.bot_trades);
                    self.phase = MarketPhase::JustEnded { ended_at: now, winner, end_btc_price: end_price };
                    self.status = Status::MarketEnded { winner, beat: self.beat_price, end: end_price };
                    TickAction::Nothing
                } else {
                    TickAction::FetchDisplayBook
                }
            },
            MarketPhase::JustEnded { ended_at, winner: at_close, .. } => {
                let winner = match self.post_market_winner {
                    Some(w) => w,
                    None => at_close,
                };
                let elapsed: i128 = now as i128 - ended_at as i128;
                if elapsed >= self.config.post_market_secs as i128 {
                    self.phase = MarketPhase::Transitioning;
                    self.status = Status::WindowClosed;
                    return TickAction::Nothing;
                }
                let remaining = remaining_secs(now, ended_at, self.config.post_market_secs);
                if self.beat_price == 0 {
                    self.status = Status::SkippingUnknownBeat { remaining };
                    return TickAction::Nothing;
                }
                let max = self.config.max_trades_per_market;
                if max > 0 && self.bot_trades.len() >= max {
                    self.status = Status::MaxTradesReached {
                        winner,
                        count: self.bot_trades.len(),
                        max,
                        remaining,
                    };
                    return TickAction::Nothing;
                }
                TickAction::FetchTradingBook { winner }
            },
            MarketPhase::Transitioning => {
                self.status = Status::WaitingForNextMarket;
                TickAction::Nothing
            },
        }
    }

    /// The book read for display has arrived (`None` when the read failed,
    /// which leaves the old book); the status shows the time left on the
    /// clock `now` and the move against the beat price.
    pub fn on_display_book(&mut self, book: Option<Orderbook>, now: i64)
        ensures
            book is None ==> final(self).orderbook == old(self).orderbook,
            book matches Some(b) ==> final(self).orderbook == b,
            final(self).status == (if old(self).beat_price > 0 {
                Status::Active {
                    secs_left: old(self).current_market.end_time.wrapping_sub(now),
                    price: old(self).btc_price,
                    beat: old(self).beat_price,
                }
            } else {
                Status::ActiveWithoutBeat {
                    secs_left: old(self).current_market.end_time.wrapping_sub(now),
                    price: old(self).btc_price,
                }
            }),
            final(self).phase == old(self).phase,
            same_market(*old(self), *final(self)),
            same_trades(*old(self), *final(self)),
            same_post_market(*old(self), *final(self)),
            same_prices(*old(self), *final(self)),
            trade_limit_holds(*old(self)) ==> trade_limit_holds(*final(self)),
    {
        match book {
            Some(ob) => {
                self.orderbook = ob;
            },
            None => {},
        }
        let secs_left = self.current_market.seconds_until_end_at(now);
        if self.beat_price > 0 {
            self.status = Status::Active { secs_left, price: self.btc_price, beat: self.beat_price };
        } else {
            self.status = Status::ActiveWithoutBeat { secs_left, price: self.btc_price };
        }
    }

    /// The book read for trading could not be had.
    pub fn on_trading_book_failed(&mut self, winner: Outcome, error: String, now: i64)
        requires
            old(self).phase is JustEnded,
        ensures
            final(self).status == (Status::OrderbookFetchFailed {
                winner,
                error,
                remaining: remaining_of(now, ended_at_of(old(self).phase), old(self).config.post_market_secs),
            }),
            final(self).phase == old(self).phase,
            final(self).orderbook == old(self).orderbook,
            same_market(*old(self), *final(self)),
            same_trades(*old(self), *final(self)),
            same_post_market(*old(self), *final(self)),
            same_prices(*old(self), *final(self)),
            trade_limit_holds(*old(self)) ==> trade_limit_holds(*final(self)),
    {
        let remaining = self.window_left(now);
        self.status = Status::OrderbookFetchFailed { winner, error, remaining };
    }

    fn window_left(&self, now: i64) -> (res: i64)
        requires
            self.phase is JustEnded,
        ensures
            res == remaining_of(now, ended_at_of(self.phase), self.config.post_market_secs),
    {
        match self.phase {
            MarketPhase::JustEnded { ended_at, .. } => remaining_secs(now, ended_at, self.config.post_market_secs),
            _ => 0,
        }
    }

    /// The book read for trading has arrived: it is kept for display and
    /// the winner's asks below one dollar, cheapest first as the book holds
    /// them, are what may be bought.
    pub fn on_trading_book(&mut self, book: Orderbook, winner: Outcome, now: i64) -> (res: Vec<OrderLevel>)
        requires
            old(self).phase is JustEnded,
        ensures
            res@ == below_one_dollar(
                match winner {
                    Outcome::Up => book.up.asks@,
                    Outcome::Down => book.down.asks@,
                },
            ),
            final(self).orderbook == book,
            final(self).post_market_orderbook is Some,
            final(self).post_market_orderbook->0.up.asks@ == book.up.asks@,
            final(self).post_market_orderbook->0.up.bids@ == book.up.bids@,
            final(self).post_market_orderbook->0.down.asks@ == book.down.asks@,
            final(self).post_market_orderbook->0.down.bids@ == book.down.bids@,
            final(self).post_market_orderbook->0.fetched_at == book.fetched_at,
            res@.len() == 0 ==> final(self).status == (Status::NoAsksBelowOneDollar {
                winner,
                beat: old(self).beat_price,
                end: old(self).post_market_end_price,
                remaining: remaining_of(now, ended_at_of(old(self).phase), old(self).config.post_market_secs),
            }),
            res@.len() > 0 ==> final(self).status == old(self).status,
            final(self).phase == old(self).phase,
            same_market(*old(self), *final(self)),
            same_trades(*old(self), *final(self)),
            final(self).post_market_winner == old(self).post_market_winner,
            final(self).post_market_end_price == old(self).post_market_end_price,
            final(self).post_market_beat_price == old(self).post_market_beat_price,
            final(self).post_market_slug == old(self).post_market_slug,
            same_prices(*old(self), *final(self)),
            trade_limit_holds(*old(self)) ==> trade_limit_holds(*final(self)),
    {
        let tradeable = match winner {
            Outcome::Up => book.up.asks_below_one_dollar(),
            Outcome::Down => book.down.asks_below_one_dollar(),
        };
        self.post_market_orderbook = Some(book.duplicate());
        self.orderbook = book;
        if tradeable.len() == 0 {
            let remaining = self.window_left(now);
            self.status = Status::NoAsksBelowOneDollar {
                winner,
                beat: self.beat_price,
                end: self.post_market_end_price,
                remaining,
            };
        }
        tradeable
    }

    /// The first level at or after `from`, stepping `order_level_skip` (at
    /// least one) levels at a time, that the trade amount buys at least one
    /// dollar of.
    pub fn next_attempt(&self, levels: &Vec<OrderLevel>, from: usize) -> (res: Option<usize>)
        ensures
            res matches Some(j) ==> next_attempt_from(levels@, from as int, self.config.order_usdc as nat, level_skip(self.config.order_level_skip) as int) == Some(j as int),
            res is None ==> next_attempt_from(levels@, from as int, self.config.order_usdc as nat, level_skip(self.config.order_level_skip) as int) is None,
    {
        let skip: usize = if self.config.order_level_skip > 1 { self.config.order_level_skip } else { 1 };
        let budget = self.config.order_usdc;
        let mut i: usize = from;
        while i < levels.len()
            invariant
                skip == level_skip(self.config.order_level_skip),
                skip >= 1,
                budget == self.config.order_usdc,
                next_attempt_from(levels@, from as int, budget as nat, skip as int) == next_attempt_from(levels@, i as int, budget as nat, skip as int),
            decreases levels@.len() + skip - i,
        {
            if worth_an_order(budget, levels[i].price) {
                return Some(i);
            }
            if i > usize::MAX - skip {
                assert(next_attempt_from(levels@, i + skip, budget as nat, skip as int) is None);
                return None;
            }
            i = i + skip;
        }
        None
    }

    /// The walk's step after the order at level `i` was answered (`filled`
    /// when it was filled); see `walk_after`.
    pub fn walk_step(&self, levels: &Vec<OrderLevel>, i: usize, filled: bool) -> (res: WalkStep)
        ensures
            res == walk_after(levels@, i as int, filled, self.config.order_usdc as nat, level_skip(self.config.order_level_skip) as int),
    {
        if filled {
            return WalkStep::Stop;
        }
        match self.after_refusal(i) {
            None => WalkStep::Stop,
            Some(from) => match self.next_attempt(levels, from) {
                Some(j) => WalkStep::Try(j),
                None => WalkStep::Stop,
            },
        }
    }

    /// Where the walk goes on after the order at level `i` was refused:
    /// `order_level_skip` (at least one) levels further, while the index
    /// fits a `usize`.
    pub fn after_refusal(&self, i: usize) -> (res: Option<usize>)
        ensures
            res == (if i + level_skip(self.config.order_level_skip) <= usize::MAX {
                Some((i + level_skip(self.config.order_level_skip)) as usize)
            } else {
                None::<usize>
            }),
    {
        let skip: usize = if self.config.order_level_skip > 1 { self.config.order_level_skip } else { 1 };
        i.checked_add(skip)
    }

    /// What to send the executor for a level: the winner's token, the shares
    /// the trade amount buys at the level's price, and the slippage buffer.
    pub fn buy_params(&self, level: OrderLevel, winner: Outcome) -> (res: BuyParams)
        requires
            valid_config(self.config),
            level.price > 0,
        ensures
            res.token_id@ == (match winner {
                Outcome::Up => self.current_market.up_token_id@,
                Outcome::Down => self.current_market.down_token_id@,
            }),
            res.outcome == winner,
            res.shares == held_shares(self.config.order_usdc as nat, level.price as nat),
            res.ask_price == level.price,
            res.slippage_buffer == self.config.slippage_buffer,
            (res.shares as nat * res.ask_price as nat) / (MICROS as nat) <= self.config.order_usdc,
    {
        let token_id = match winner {
            Outcome::Up => self.current_market.up_token_id.clone(),
            Outcome::Down => self.current_market.down_token_id.clone(),
        };
        let shares = shares_to_buy(self.config.order_usdc, level.price);
        BuyParams { token_id, outcome: winner, shares, ask_price: level.price, slippage_buffer: self.config.slippage_buffer }
    }

    /// The order for level `i` of `levels`, when one may be sent: the level
    /// exists and has a price, and the market's trade limit is not reached.
    pub fn order_at(&self, levels: &Vec<OrderLevel>, i: usize, winner: Outcome) -> (res: Option<BuyParams>)
        requires
            valid_config(self.config),
        ensures
            res is Some <==> (i < levels@.len() && levels@[i as int].price > 0
                && may_trade(self.bot_trades@.len(), self.config.max_trades_per_market as nat)),
            res matches Some(p) ==> {
                &&& p.token_id@ == (match winner {
                    Outcome::Up => self.current_market.up_token_id@,
                    Outcome::Down => self.current_market.down_token_id@,
                })
                &&& p.outcome == winner
                &&& p.shares == held_shares(self.config.order_usdc as nat, levels@[i as int].price as nat)
                &&& p.ask_price == levels@[i as int].price
                &&& p.slippage_buffer == self.config.slippage_buffer
            },
    {
        if i >= levels.len() || levels[i].price == 0 {
            return None;
        }
        let limit = self.config.max_trades_per_market;
        if limit > 0 && self.bot_trades.len() >= limit {
            return None;
        }
        Some(self.buy_params(levels[i], winner))
    }

    /// A buy was filled: the trade is recorded for this market and the
    /// session, and the post-market snapshot shows it.
    pub fn record_fill(&mut self, fill: ExecResult, winner: Outcome, now: i64, is_live: bool) -> (res: BotTrade)
        requires
            old(self).phase is JustEnded,
            may_trade(old(self).bot_trades@.len(), old(self).config.max_trades_per_market as nat),
        ensures
            res == (BotTrade {
                ts: now,
                market_slug: old(self).current_market.slug,
                outcome: winner,
                shares: fill.shares,
                usdc_spent: fill.usdc,
                fill_price: fill.fill_price,
                order_id: fill.order_id,
                is_live,
            }),
            final(self).bot_trades@ == old(self).bot_trades@.push(res),
            final(self).all_trades@ == old(self).all_trades@.push(res),
            final(self).post_market_trades@ == final(self).bot_trades@,
            final(self).status == (Status::Bought {
                winner,
                shares: fill.shares,
                usdc: fill.usdc,
                beat: old(self).beat_price,
                end: old(self).post_market_end_price,
                remaining: remaining_of(now, ended_at_of(old(self).phase), old(self).config.post_market_secs),
            }),
            final(self).phase == old(self).phase,
            same_market(*old(self), *final(self)),
            final(self).orderbook == old(self).orderbook,
            final(self).post_market_orderbook == old(self).post_market_orderbook,
            final(self).post_market_winner == old(self).post_market_winner,
            final(self).post_market_end_price == old(self).post_market_end_price,
            final(self).post_market_beat_price == old(self).post_market_beat_price,
            final(self).post_market_slug == old(self).post_market_slug,
            same_prices(*old(self), *final(self)),
            trade_limit_holds(*old(self)) ==> trade_limit_holds(*final(self)),
    {
        let trade = BotTrade {
            ts: now,
            market_slug: self.current_market.slug.clone(),
            outcome: winner,
            shares: fill.shares,
            usdc_spent: fill.usdc,
            fill_price: fill.fill_price,
            order_id: fill.order_id,
            is_live,
        };
        self.bot_trades.push(trade.duplicate());
        self.all_trades.push(trade.duplicate());
        self.post_market_trades = copy_trades(&self.bot_trades);
        let remaining = self.window_left(now);
        self.status = Status::Bought {
            winner,
            shares: trade.shares,
            usdc: trade.usdc_spent,
            beat: self.beat_price,
            end: self.post_market_end_price,
            remaining,
        };
        trade
    }

    /// No level was filled this poll, after trying `tried` levels.
    pub fn record_no_fill(&mut self, winner: Outcome, tried: usize, now: i64)
        requires
            old(self).phase is JustEnded,
        ensures
            final(self).status == (Status::NoFill {
                winner,
                tried,
                beat: old(self).beat_price,
                end: old(self).post_market_end_price,
                remaining: remaining_of(now, ended_at_of(old(self).phase), old(self).config.post_market_secs),
            }),
            final(self).phase == old(self).phase,
            final(self).orderbook == old(self).orderbook,
            same_market(*old(self), *final(self)),
            same_trades(*old(self), *final(self)),
            same_post_market(*old(self), *final(self)),
            same_prices(*old(self), *final(self)),
            trade_limit_holds(*old(self)) ==> trade_limit_holds(*final(self)),
    {
        let remaining = self.window_left(now);
        self.status = Status::NoFill { winner, tried, beat: self.beat_price, end: self.post_market_end_price, remaining };
    }

    /// A new market slug is taken up only outside the post-market window.
    pub fn needs_transition(&self, new_slug: &str) -> (res: bool)
        ensures
            res == (new_slug@ != self.cached_slug@ && !(self.phase is JustEnded)),
    {
        let in_window = matches!(self.phase, MarketPhase::JustEnded { .. });
        !crate::text::str_eq(new_slug, self.cached_slug.as_str()) && !in_window
    }

    /// Whether a market is being left (one was set before): its trades are
    /// settled and the per-market state is reset.
    pub fn leaving_market(&self) -> (res: bool)
        ensures
            res == (self.cached_slug@.len() > 0),
    {
        !self.cached_slug.as_str().is_empty()
    }

    /// The profit of each trade of the market being left, in order. The
    /// winner is the platform's resolution when known, else the one decided
    /// at the close; a row counts as resolved exactly when the platform's
    /// resolution was known.
    pub fn settle_trades(&self, resolution: Option<Outcome>) -> (res: Vec<MarketPnl>)
        ensures
            res@.len() == self.bot_trades@.len(),
            forall|i: int| 0 <= i < res@.len() ==> {
                let t = self.bot_trades@[i];
                let w = if resolution is Some { resolution } else { self.post_market_winner };
                &&& #[trigger] res@[i].pnl == trade_pnl(t, w)
                &&& res@[i].winner == w
                &&& res@[i].our_outcome == t.outcome
                &&& res@[i].shares_bought == t.shares
                &&& res@[i].usdc_spent == t.usdc_spent
                &&& res@[i].slug@ == self.current_market.slug@
                &&& res@[i].beat_price == self.post_market_beat_price
                &&& res@[i].end_price == self.post_market_end_price
                &&& res@[i].resolved == resolution is Some
            },
    {
        let winner = match resolution {
            Some(w) => Some(w),
            None => self.post_market_winner,
        };
        let mut out: Vec<MarketPnl> = Vec::new();
        let mut i: usize = 0;
        while i < self.bot_trades.len()
            invariant
                i <= self.bot_trades@.len(),
                out@.len() == i,
                winner == (if resolution is Some { resolution } else { self.post_market_winner }),
                forall|k: int| #![trigger out@[k]] 0 <= k < i ==> {
                    let t = self.bot_trades@[k];
                    &&& out@[k].pnl == trade_pnl(t, winner)
                    &&& out@[k].winner == winner
                    &&& out@[k].our_outcome == t.outcome
                    &&& out@[k].shares_bought == t.shares
                    &&& out@[k].usdc_spent == t.usdc_spent
                    &&& out@[k].slug@ == self.current_market.slug@
                    &&& out@[k].beat_price == self.post_market_beat_price
                    &&& out@[k].end_price == self.post_market_end_price
                    &&& out@[k].resolved == resolution is Some
                },
            decreases self.bot_trades@.len() - i,
        {
            let t = &self.bot_trades[i];
            let won = match winner {
                Some(w) => w == t.outcome,
                None => false,
            };
            let pnl: i128 = if won {
                t.shares as i128 - t.usdc_spent as i128
            } else {
                -(t.usdc_spent as i128)
            };
            let ghost before = out@;
            out.push(MarketPnl {
                slug: self.current_market.slug.clone(),
                beat_price: self.post_market_beat_price,
                end_price: self.post_market_end_price,
                winner,
                our_outcome: t.outcome,
                shares_bought: t.shares,
                usdc_spent: t.usdc_spent,
                pnl,
                resolved: resolution.is_some(),
            });
            proof {
                assert forall|k: int| #![trigger out@[k]] 0 <= k < i + 1 implies {
                    let t = self.bot_trades@[k];
                    &&& out@[k].pnl == trade_pnl(t, winner)
                    &&& out@[k].winner == winner
                    &&& out@[k].our_outcome == t.outcome
                    &&& out@[k].shares_bought == t.shares
                    &&& out@[k].usdc_spent == t.usdc_spent
                    &&& out@[k].slug@ == self.current_market.slug@
                    &&& out@[k].beat_price == self.post_market_beat_price
                    &&& out@[k].end_price == self.post_market_end_price
                    &&& out@[k].resolved == resolution is Some
                } by {
                    if k < i {
                        assert(out@[k] == before[k]);
                    }
                }
            }
            i = i + 1;
        }
        out
    }

    /// Leaves the current market (when there is one): back to the open
    /// phase, with no trades and no post-market book.
    pub fn reset_market(&mut self)
        ensures
            old(self).cached_slug@.len() > 0 ==> {
                &&& final(self).phase == MarketPhase::Active
                &&& final(self).bot_trades@.len() == 0
                &&& final(self).post_market_orderbook is None
            },
            old(self).cached_slug@.len() == 0 ==> {
                &&& final(self).phase == old(self).phase
                &&& final(self).bot_trades@ == old(self).bot_trades@
                &&& final(self).post_market_orderbook == old(self).post_market_orderbook
            },
            same_market(*old(self), *final(self)),
            final(self).all_trades@ == old(self).all_trades@,
            final(self).post_market_trades@ == old(self).post_market_trades@,
            final(self).post_market_winner == old(self).post_market_winner,
            final(self).post_market_end_price == old(self).post_market_end_price,
            final(self).post_market_beat_price == old(self).post_market_beat_price,
            final(self).post_market_slug == old(self).post_market_slug,
            final(self).orderbook == old(self).orderbook,
            final(self).status == old(self).status,
            same_prices(*old(self), *final(self)),
            trade_limit_holds(*old(self)) ==> trade_limit_holds(*final(self)),
    {
        if !self.cached_slug.as_str().is_empty() {
            self.phase = MarketPhase::Active;
            self.bot_trades.clear();
            self.post_market_orderbook = None;
        }
    }

    /// Takes up the next market. Its beat price is the round recorded at the
    /// boundary when there was one (and it was positive), else 0 (unknown).
    pub fn enter_market(&mut self, meta: MarketMeta, new_slug: String)
        ensures
            final(self).beat_price == beat_on_entry(old(self).next_beat_price),
            final(self).next_beat_price is None,
            final(self).current_market == meta,
            final(self).cached_slug == new_slug,
            final(self).candles.max_candles == 3 && final(self).candles.candles@.len() == 0,
            final(self).candles.current_candle is None,
            final(self).status == (Status::NewMarket { slug: new_slug, beat: beat_on_entry(old(self).next_beat_price) }),
            final(self).phase == old(self).phase,
            final(self).config == old(self).config,
            final(self).is_live == old(self).is_live,
            final(self).last_seen_bucket_ts == old(self).last_seen_bucket_ts,
            same_trades(*old(self), *final(self)),
            same_post_market(*old(self), *final(self)),
            final(self).orderbook == old(self).orderbook,
            final(self).btc_price == old(self).btc_price,
            final(self).poll_count == old(self).poll_count,
            final(self).last_tick_ms == old(self).last_tick_ms,
            old(self).bot_trades@.len() == 0 ==> trade_limit_holds(*final(self)),
    {
        let beat = match self.next_beat_price {
            Some(p) => if p > 0 { p } else { 0 },
            None => 0,
        };
        self.next_beat_price = None;
        self.beat_price = beat;
        self.current_market = meta;
        self.cached_slug = new_slug;
        self.candles = CandleHistory::new(3);
        self.status = Status::NewMarket { slug: self.cached_slug.clone(), beat };
    }

    /// A step of the poll failed; the status shows why.
    pub fn record_error(&mut self, message: String)
        ensures
            final(self).status == Status::Error(message),
            final(self).phase == old(self).phase,
            final(self).orderbook == old(self).orderbook,
            same_market(*old(self), *final(self)),
            same_trades(*old(self), *final(self)),
            same_post_market(*old(self), *final(self)),
            same_prices(*old(self), *final(self)),
            trade_limit_holds(*old(self)) ==> trade_limit_holds(*final(self)),
    {
        self.status = Status::Error(message);
    }

    /// End of a poll: records how long it took. A market entered without a
    /// boundary round keeps an unknown (0) beat price and is not traded: the
    /// beat price comes only from the round at the bucket boundary.
    pub fn finish_tick(&mut self, tick_ms: u64)
        ensures
            final(self).last_tick_ms == tick_ms,
            final(self).phase == old(self).phase,
            final(self).status == old(self).status,
            final(self).orderbook == old(self).orderbook,
            same_market(*old(self), *final(self)),
            same_trades(*old(self), *final(self)),
            same_post_market(*old(self), *final(self)),
            final(self).btc_price == old(self).btc_price,
            final(self).candles == old(self).candles,
            final(self).poll_count == old(self).poll_count,
            trade_limit_holds(*old(self)) ==> trade_limit_holds(*final(self)),
    {
        self.last_tick_ms = tick_ms;
    }
}

/// UP wins exactly when a beat price is known and the end price is above it;
/// every other case (equal prices, a lower end price, no beat price) is DOWN.
pub proof fn winner_is_up_iff_end_above_beat(beat: u64, end: u64)
    ensures
        (decided_winner(beat, end) == Outcome::Up) <==> (beat > 0 && end > beat),
        (decided_winner(beat, end) == Outcome::Down) <==> !(beat > 0 && end > beat),
{
}

/// The level chosen for an order is one the budget buys at least one dollar
/// of, it lies in the book, and it is a whole number of steps past the start.
pub proof fn next_attempt_is_worth_ordering(levels: Seq<OrderLevel>, from: int, budget: nat, skip: int)
    requires
        next_attempt_from(levels, from, budget, skip) is Some,
    ensures
        ({
            let j = next_attempt_from(levels, from, budget, skip)->0;
            &&& from <= j < levels.len()
            &&& worth_ordering(budget, levels[j].price as nat)
            &&& (j - from) % skip == 0
        }),
    decreases (if from < levels.len() { levels.len() - from } else { 0 }),
{
    if !worth_ordering(budget, levels[from].price as nat) {
        next_attempt_is_worth_ordering(levels, from + skip, budget, skip);
        let j = next_attempt_from(levels, from, budget, skip)->0;
        assert((j - from) % skip == 0) by (nonlinear_arith)
            requires (j - (from + skip)) % skip == 0, skip > 0;
    } else {
        assert(skip > 0);
        assert(0int % skip == 0) by (nonlinear_arith)
            requires skip > 0;
        assert(from - from == 0);
    }
}

/// A fill ends the walk; after a refusal the next level tried lies further
/// on in the book, on the step grid, and is worth an order.
pub proof fn walk_moves_on_and_stops_after_a_fill(levels: Seq<OrderLevel>, i: int, budget: nat, skip: int)
    requires
        skip >= 1,
        levels.len() <= usize::MAX,
    ensures
        walk_after(levels, i, true, budget, skip) == WalkStep::Stop,
        walk_after(levels, i, false, budget, skip) matches WalkStep::Try(j) ==> {
            &&& i + skip <= j < levels.len()
            &&& worth_ordering(budget, levels[j as int].price as nat)
            &&& (j - (i + skip)) % skip == 0
        },
{
    if i + skip <= usize::MAX && next_attempt_from(levels, i + skip, budget, skip) is Some {
        next_attempt_is_worth_ordering(levels, i + skip, budget, skip);
    }
}

/// Levels are tried in book order: every level passed over between the start
/// and the chosen one (on the step grid) buys less than a dollar.
pub proof fn skipped_levels_are_below_a_dollar(levels: Seq<OrderLevel>, from: int, budget: nat, skip: int, k: int)
    requires
        next_attempt_from(levels, from, budget, skip) is Some,
        from <= k < next_attempt_from(levels, from, budget, skip)->0,
        (k - from) % skip == 0,
    ensures
        !worth_ordering(budget, levels[k].price as nat),
    decreases (if from < levels.len() { levels.len() - from } else { 0 }),
{
    next_attempt_is_worth_ordering(levels, from, budget, skip);
    if k > from {
        assert(worth_ordering(budget, levels[from].price as nat) == false) by {
            if worth_ordering(budget, levels[from].price as nat) {
                assert(next_attempt_from(levels, from, budget, skip)->0 == from);
            }
        }
        let d = k - from;
        let m = d / skip;
        assert(d == m * skip) by (nonlinear_arith)
            requires d % skip == 0, skip > 0, m == d / skip;
        assert(m >= 1) by (nonlinear_arith)
            requires d == m * skip, d > 0, skip > 0;
        assert(d - skip == (m - 1) * skip) by (nonlinear_arith)
            requires d == m * skip;
        assert(((m - 1) * skip) % skip == 0) by (nonlinear_arith)
            requires skip > 0, m >= 1;
        assert(d - skip >= 0) by (nonlinear_arith)
            requires d == m * skip, m >= 1, skip > 0;
        assert(k - (from + skip) == d - skip);
        skipped_levels_are_below_a_dollar(levels, from + skip, budget, skip, k);
    }
}

/// The shares an order asks for cost the budget rounded down to a whole
/// millionth of a share: never more than the budget, and short of it by
/// less than one millionth of a share's price.
pub proof fn order_cost_is_budget_rounded_down(budget: nat, price: nat)
    requires
        price > 0,
    ensures
        shares_for(budget, price) * price <= budget * (MICROS as nat),
        budget * (MICROS as nat) < shares_for(budget, price) * price + price,
{
    let b = budget * 1_000_000;
    let q = b / price;
    assert(q * price <= b && b < q * price + price) by (nonlinear_arith)
        requires price > 0, q == b / price;
}

/// Settling a trade: a winning side's shares pay one dollar each, so its
/// profit is shares minus cost; a losing side loses its cost.
pub proof fn pnl_of_winner_and_loser(t: BotTrade, w: Outcome)
    ensures
        w == t.outcome ==> trade_pnl(t, Some(w)) == t.shares - t.usdc_spent,
        w != t.outcome ==> trade_pnl(t, Some(w)) == -(t.usdc_spent as int),
        trade_pnl(t, None) == -(t.usdc_spent as int),
{
}

/// The beat price of a market is the round stamped exactly at its bucket
/// boundary: once a poll has seen the boundary and the history holds that
/// round, entering the market takes the round's price (when positive).
pub proof fn boundary_round_becomes_beat(old_ls: int, old_next: Option<u64>, bucket: int, h: Seq<PricePoint>, p: u64)
    requires
        bucket > old_ls,
        bucket > 0,
        first_exact(h, bucket) == Some(p),
        p > 0,
    ensures
        beat_on_entry(next_beat_after_observe(old_ls, old_next, bucket, h)) == p,
{
}

/// Once a boundary price is known it is kept for the rest of the bucket:
/// later polls of the same bucket do not replace it.
pub proof fn boundary_price_is_kept_within_bucket(ls: int, p: u64, bucket: int, h: Seq<PricePoint>)
    requires
        bucket <= ls,
    ensures
        next_beat_after_observe(ls, Some(p), bucket, h) == Some(p),
{
}

} // verus!
