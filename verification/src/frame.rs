//! The terminal frame: every line of the live view, composed from a snapshot
//! of the bot's state. Writing the frame to the terminal is left to the
//! caller.
use vstd::prelude::*;
use crate::book::{below_one_dollar, level_value, total_value, OrderLevel, Orderbook, TokenBook};
use crate::display::{line_end, pad_count, pad_l, pad_r, spaces, time_left_at, time_left_text, two_digits, wl};
use crate::engine::{remaining_of, remaining_secs, Status};
use crate::report::{append, fixed_text, fixed_u, fixed_u64, fixed_i, number_text, number_text_of, side_upper, side_upper_text, utc_text_or, utc_text_or_exec};
use crate::text::{dec_digits, dec_signed, i64_to_decimal, pow10, push_char, str_chars, u128_to_decimal, u64_to_decimal};
use crate::types::{BotTrade, Candle, CandleHistory, MarketPhase, Outcome};

verus! {

/// Lines shown one under the other: each is followed by an
/// erase-to-end-of-line code and a newline.
pub open spec fn screen(lines: Seq<Seq<char>>) -> Seq<char>
    decreases lines.len(),
{
    if lines.len() == 0 {
        Seq::empty()
    } else {
        screen(lines.drop_last()) + lines.last() + line_end()
    }
}

/// Writes one more line under `lines`.
fn emit(out: &mut String, line: &str, Ghost(base): Ghost<Seq<char>>, Ghost(lines): Ghost<Seq<Seq<char>>>)
    requires
        old(out)@ == base + screen(lines),
    ensures
        final(out)@ == base + screen(lines.push(line@)),
{
    wl(out, line);
    assert(lines.push(line@).drop_last() =~= lines);
    assert(final(out)@ =~= base + screen(lines.push(line@)));
}

pub open spec fn reset() -> Seq<char> {
    "\x1b[0m"@
}

pub open spec fn bold() -> Seq<char> {
    "\x1b[1m"@
}

pub open spec fn dim() -> Seq<char> {
    "\x1b[2m"@
}

pub open spec fn cyan() -> Seq<char> {
    "\x1b[36m"@
}

pub open spec fn yellow() -> Seq<char> {
    "\x1b[33m"@
}

pub open spec fn green() -> Seq<char> {
    "\x1b[32m"@
}

pub open spec fn red() -> Seq<char> {
    "\x1b[31m"@
}

pub open spec fn white() -> Seq<char> {
    "\x1b[37m"@
}

/// A price (hundred-millionths of a dollar) to the cent.
pub open spec fn usd(v: u64) -> Seq<char> {
    fixed_text(v as int, 8, 2)
}

/// A number written with at least two characters, zero-padded (`{:02}`).
pub open spec fn pad2(v: int) -> Seq<char> {
    if v < 0 { seq!['-'] + dec_digits((-v) as nat) } else { two_digits(v as nat) }
}

/// Seconds as minutes and seconds, `MM:SS`, with Rust's truncating division.
pub open spec fn mm_ss(secs: int) -> Seq<char> {
    let q = if secs >= 0 { secs / 60 } else { -((-secs) / 60) };
    pad2(q) + seq![':'] + pad2(secs - 60 * q)
}

/// A signed amount with its sign always written (`{:+}`).
pub open spec fn plus_signed(v: int, scale: nat, places: nat) -> Seq<char> {
    (if v >= 0 { seq!['+'] } else { Seq::empty() }) + fixed_text(v, scale, places)
}

/// `price` against `beat` in percent, to 3 places.
pub open spec fn percent_of(price: u64, beat: u64) -> Seq<char> {
    let d = price - beat;
    number_text(d < 0, ((if d < 0 { -d } else { d }) * 100) as nat, beat as nat, 3)
}

/// The move of `price` against `beat` in percent, to 3 places with its sign;
/// against a beat price of zero the quotient is infinite (`+inf`) or, for a
/// zero price, not a number.
pub open spec fn pct_text(price: u64, beat: u64) -> Seq<char> {
    if beat == 0 {
        if price > 0 { "+inf"@ } else { "NaN"@ }
    } else {
        (if price >= beat { seq!['+'] } else { Seq::empty() }) + percent_of(price, beat)
    }
}

/// The status line in words.
pub open spec fn status_text(st: Status) -> Seq<char> {
    match st {
        Status::Initializing => "Initializing… connecting to Polymarket RTDS"@,
        Status::Error(e) => "Error: "@ + e@,
        Status::WindowClosed => "Post-market window closed, loading next market…"@,
        Status::WaitingForNextMarket => "Waiting for next market…"@,
        Status::NewMarket { slug, beat } => "New market: "@ + slug@ + "  Beat: $"@ + usd(beat),
        Status::MarketEnded { winner, beat, end } => "Market ENDED!  Winner: "@ + side_upper(winner) + "  Beat: $"@ + usd(beat)
            + "  End: $"@ + usd(end) + "  Scanning orderbook…"@,
        Status::Active { secs_left, price, beat } => "Active  "@ + mm_ss(secs_left as int) + " left  BTC $"@ + usd(price)
            + "  Beat $"@ + usd(beat) + "  Δ"@ + plus_signed(price - beat, 8, 2) + " ("@ + pct_text(price, beat) + "%)  "@
            + (if price > beat { "↑ UP"@ } else { "↓ DOWN"@ }),
        Status::ActiveWithoutBeat { secs_left, price } => "Active  "@ + mm_ss(secs_left as int) + " left  BTC $"@ + usd(price)
            + "  Beat: N/A (started mid-market)"@,
        Status::SkippingUnknownBeat { remaining } => "Skipping — beat price unknown (started mid-market)  Window: "@
            + dec_signed(remaining as int) + "s"@,
        Status::MaxTradesReached { winner, count, max, remaining } => "Winner: "@ + side_upper(winner) + "  Max trades reached ("@
            + dec_digits(count as nat) + "/"@ + dec_digits(max as nat) + ")  Window: "@ + dec_signed(remaining as int) + "s"@,
        Status::OrderbookFetchFailed { winner, error, remaining } => "Winner: "@ + side_upper(winner) + "  Orderbook fetch failed: "@
            + error@ + "  Window: "@ + dec_signed(remaining as int) + "s"@,
        Status::NoAsksBelowOneDollar { winner, beat, end, remaining } => "Winner: "@ + side_upper(winner)
            + "  No asks below $1.00  Beat: $"@ + usd(beat) + "  End: $"@ + usd(end) + "  Window: "@ + dec_signed(remaining as int) + "s"@,
        Status::Bought { winner, shares, usdc, beat, end, remaining } => "Winner: "@ + side_upper(winner) + "  Bought "@
            + fixed_text(shares as int, 6, 3) + " shares for $"@ + fixed_text(usdc as int, 6, 2) + "  Beat: $"@ + usd(beat) + "  End: $"@
            + usd(end) + "  Window: "@ + dec_signed(remaining as int) + "s"@,
        Status::NoFill { winner, tried, beat, end, remaining } => "Winner: "@ + side_upper(winner) + "  No fill (tried "@
            + dec_digits(tried as nat) + " levels)  Beat: $"@ + usd(beat) + "  End: $"@ + usd(end) + "  Window: "@
            + dec_signed(remaining as int) + "s"@,
    }
}

fn usd_text(v: u64) -> (res: String)
    ensures
        res@ == usd(v),
{
    fixed_u64(v, 8, 2)
}

fn pad2_text(v: i128) -> (res: String)
    requires
        -0x1_0000_0000_0000_0000 <= v <= 0x1_0000_0000_0000_0000,
    ensures
        res@ == pad2(v as int),
{
    if v < 0 {
        let mut out = String::new();
        push_char(&mut out, '-');
        let d = u128_to_decimal((-v) as u128);
        append(&mut out, d.as_str());
        assert(out@ =~= seq!['-'] + d@);
        out
    } else {
        let d = u128_to_decimal(v as u128);
        if v < 10 {
            let mut out = String::new();
            push_char(&mut out, '0');
            append(&mut out, d.as_str());
            assert(out@ =~= seq!['0'] + d@);
            out
        } else {
            d
        }
    }
}

fn mm_ss_text(secs: i64) -> (res: String)
    ensures
        res@ == mm_ss(secs as int),
{
    let s: i128 = secs as i128;
    let q: i128 = if s >= 0 { s / 60 } else { -((-s) / 60) };
    let r: i128 = s - 60 * q;
    let mut out = pad2_text(q);
    push_char(&mut out, ':');
    let b = pad2_text(r);
    append(&mut out, b.as_str());
    out
}

fn plus_signed_text(v: i128, scale: u32, places: u32) -> (res: String)
    requires
        scale <= 18,
        places <= 18,
        -0x1_0000_0000_0000_0000 <= v <= 0x1_0000_0000_0000_0000,
    ensures
        res@ == plus_signed(v as int, scale as nat, places as nat),
{
    let t = fixed_i(v, scale, places);
    if v >= 0 {
        let mut out = String::new();
        push_char(&mut out, '+');
        append(&mut out, t.as_str());
        assert(out@ =~= seq!['+'] + t@);
        out
    } else {
        assert(t@ =~= Seq::<char>::empty() + t@);
        t
    }
}

fn pct_string(price: u64, beat: u64) -> (res: String)
    ensures
        res@ == pct_text(price, beat),
{
    if beat == 0 {
        if price > 0 { "+inf".to_owned() } else { "NaN".to_owned() }
    } else {
        let d: i128 = price as i128 - beat as i128;
        let m: u128 = if d < 0 { (-d) as u128 } else { d as u128 };
        assert(pow10(3) == 1000) by {
            reveal_with_fuel(pow10, 4);
        }
        assert(m * 100 * 1000 <= u128::MAX) by (nonlinear_arith)
            requires m <= 0x1_0000_0000_0000_0000u128;
        let t = number_text_of(d < 0, m * 100, beat as u128, 3);
        if d >= 0 {
            let mut out = String::new();
            push_char(&mut out, '+');
            append(&mut out, t.as_str());
            assert(out@ =~= seq!['+'] + t@);
            out
        } else {
            assert(t@ =~= Seq::<char>::empty() + t@);
            t
        }
    }
}

/// Writes the status line's words (see `status_text`).
pub fn status_line_text(st: &Status) -> (res: String)
    ensures
        res@ == status_text(*st),
{
    match st {
        Status::Initializing => "Initializing… connecting to Polymarket RTDS".to_owned(),
        Status::Error(e) => {
            let mut out = "Error: ".to_owned();
            append(&mut out, e.as_str());
            out
        },
        Status::WindowClosed => "Post-market window closed, loading next market…".to_owned(),
        Status::WaitingForNextMarket => "Waiting for next market…".to_owned(),
        Status::NewMarket { slug, beat } => {
            let mut out = "New market: ".to_owned();
            append(&mut out, slug.as_str());
            append(&mut out, "  Beat: $");
            let b = usd_text(*beat);
            append(&mut out, b.as_str());
            out
        },
        Status::MarketEnded { winner, beat, end } => {
            let mut out = "Market ENDED!  Winner: ".to_owned();
            append(&mut out, side_upper_text(*winner));
            append(&mut out, "  Beat: $");
            let b = usd_text(*beat);
            append(&mut out, b.as_str());
            append(&mut out, "  End: $");
            let e = usd_text(*end);
            append(&mut out, e.as_str());
            append(&mut out, "  Scanning orderbook…");
            out
        },
        Status::Active { secs_left, price, beat } => {
            let mut out = "Active  ".to_owned();
            let m = mm_ss_text(*secs_left);
            append(&mut out, m.as_str());
            append(&mut out, " left  BTC $");
            let p = usd_text(*price);
            append(&mut out, p.as_str());
            append(&mut out, "  Beat $");
            let b = usd_text(*beat);
            append(&mut out, b.as_str());
            append(&mut out, "  Δ");
            let d = plus_signed_text(*price as i128 - *beat as i128, 8, 2);
            append(&mut out, d.as_str());
            append(&mut out, " (");
            let pc = pct_string(*price, *beat);
            append(&mut out, pc.as_str());
            append(&mut out, "%)  ");
            append(&mut out, if *price > *beat { "↑ UP" } else { "↓ DOWN" });
            out
        },
        Status::ActiveWithoutBeat { secs_left, price } => {
            let mut out = "Active  ".to_owned();
            let m = mm_ss_text(*secs_left);
            append(&mut out, m.as_str());
            append(&mut out, " left  BTC $");
            let p = usd_text(*price);
            append(&mut out, p.as_str());
            append(&mut out, "  Beat: N/A (started mid-market)");
            out
        },
        Status::SkippingUnknownBeat { remaining } => {
            let mut out = "Skipping — beat price unknown (started mid-market)  Window: ".to_owned();
            let r = i64_to_decimal(*remaining);
            append(&mut out, r.as_str());
            append(&mut out, "s");
            out
        },
        Status::MaxTradesReached { winner, count, max, remaining } => {
            let mut out = "Winner: ".to_owned();
            append(&mut out, side_upper_text(*winner));
            append(&mut out, "  Max trades reached (");
            let c = u128_to_decimal(*count as u128);
            append(&mut out, c.as_str());
            append(&mut out, "/");
            let m = u128_to_decimal(*max as u128);
            append(&mut out, m.as_str());
            append(&mut out, ")  Window: ");
            let r = i64_to_decimal(*remaining);
            append(&mut out, r.as_str());
            append(&mut out, "s");
            out
        },
        Status::OrderbookFetchFailed { winner, error, remaining } => {
            let mut out = "Winner: ".to_owned();
            append(&mut out, side_upper_text(*winner));
            append(&mut out, "  Orderbook fetch failed: ");
            append(&mut out, error.as_str());
            append(&mut out, "  Window: ");
            let r = i64_to_decimal(*remaining);
            append(&mut out, r.as_str());
            append(&mut out, "s");
            out
        },
        Status::NoAsksBelowOneDollar { winner, beat, end, remaining } => {
            let mut out = "Winner: ".to_owned();
            append(&mut out, side_upper_text(*winner));
            append(&mut out, "  No asks below $1.00  Beat: $");
            let b = usd_text(*beat);
            append(&mut out, b.as_str());
            append(&mut out, "  End: $");
            let e = usd_text(*end);
            append(&mut out, e.as_str());
            append(&mut out, "  Window: ");
            let r = i64_to_decimal(*remaining);
            append(&mut out, r.as_str());
            append(&mut out, "s");
            out
        },
        Status::Bought { winner, shares, usdc, beat, end, remaining } => {
            let mut out = "Winner: ".to_owned();
            append(&mut out, side_upper_text(*winner));
            append(&mut out, "  Bought ");
            let sh = fixed_u64(*shares, 6, 3);
            append(&mut out, sh.as_str());
            append(&mut out, " shares for $");
            let u = fixed_u64(*usdc, 6, 2);
            append(&mut out, u.as_str());
            append(&mut out, "  Beat: $");
            let b = usd_text(*beat);
            append(&mut out, b.as_str());
            append(&mut out, "  End: $");
            let e = usd_text(*end);
            append(&mut out, e.as_str());
            append(&mut out, "  Window: ");
            let r = i64_to_decimal(*remaining);
            append(&mut out, r.as_str());
            append(&mut out, "s");
            out
        },
        Status::NoFill { winner, tried, beat, end, remaining } => {
            let mut out = "Winner: ".to_owned();
            append(&mut out, side_upper_text(*winner));
            append(&mut out, "  No fill (tried ");
            let t = u128_to_decimal(*tried as u128);
            append(&mut out, t.as_str());
            append(&mut out, " levels)  Beat: $");
            let b = usd_text(*beat);
            append(&mut out, b.as_str());
            append(&mut out, "  End: $");
            let e = usd_text(*end);
            append(&mut out, e.as_str());
            append(&mut out, "  Window: ");
            let r = i64_to_decimal(*remaining);
            append(&mut out, r.as_str());
            append(&mut out, "s");
            out
        },
    }
}

/// What one frame shows: a snapshot of the bot's state, with the wallet as
/// the live executor reports it.
#[derive(Clone, Debug)]
pub struct FrameInput {
    pub asset: String,
    pub is_live: bool,
    /// Empty while the market is being looked up.
    pub market_slug: String,
    pub end_time: i64,
    pub poll_count: u64,
    /// Millionths of USDC.
    pub usdc_balance: u64,
    pub wallet_address: String,
    pub beat_price: u64,
    pub price: u64,
    pub candles: CandleHistory,
    pub book: Orderbook,
    pub phase: MarketPhase,
    pub post_market_secs: u64,
    pub post_market_book: Option<Orderbook>,
    pub post_market_winner: Option<Outcome>,
    pub post_market_beat: u64,
    pub post_market_end: u64,
    pub post_market_trades: Vec<BotTrade>,
    pub bot_trades: Vec<BotTrade>,
    pub status: Status,
    pub last_tick_ms: u64,
}

/// `s` left-aligned in `w` characters.
pub open spec fn padr(s: Seq<char>, w: nat) -> Seq<char> {
    s + spaces(pad_count(s.len(), w))
}

/// `s` right-aligned in `w` characters.
pub open spec fn padl(s: Seq<char>, w: nat) -> Seq<char> {
    spaces(pad_count(s.len(), w)) + s
}

pub open spec fn mode_text(is_live: bool) -> Seq<char> {
    if is_live { "REAL (live orders)"@ } else { "TEST (paper)"@ }
}

/// The banner, the clock and poll count, and the market with its time left.
pub open spec fn header_lines(s: FrameInput, now: i64) -> Seq<Seq<char>> {
    let slug_shown = if s.market_slug@.len() == 0 { "resolving…"@ } else { s.market_slug@ };
    let left = if s.market_slug@.len() == 0 { ""@ } else { time_left_text(s.end_time as int, now as int) };
    seq![
        bold() + cyan() + "╔══════════════════════════════════════════════════════════════════╗"@ + reset(),
        bold() + cyan() + "║  "@ + s.asset@ + " Polymarket Last-Minute Bot  ─  "@ + padr(mode_text(s.is_live), 32) + cyan() + "║"@ + reset(),
        bold() + cyan() + "╚══════════════════════════════════════════════════════════════════╝"@ + reset(),
        "  "@ + dim() + "Time   :"@ + reset() + " "@ + utc_text_or(now, "%Y-%m-%dT%H:%M:%S UTC"@, ""@) + "   Poll #"@
            + dec_digits(s.poll_count as nat),
        "  "@ + dim() + "Market :"@ + reset() + " "@ + slug_shown + "  ("@ + cyan() + left + reset() + ")"@,
    ]
}

/// A wallet address shortened to its first six and last four characters
/// (`deriving…` while there is none yet).
pub open spec fn short_wallet(w: Seq<char>) -> Seq<char> {
    if w.len() == 0 { "deriving…"@ } else { w.take(6) + "…"@ + w.subrange(w.len() - 4, w.len() as int) }
}

/// A wallet address the frame can shorten: none yet, or at least six
/// characters.
pub open spec fn wallet_shown(s: FrameInput) -> bool {
    s.is_live ==> (s.wallet_address@.len() == 0 || s.wallet_address@.len() >= 6)
}

/// The wallet and its balance, shown when trading live.
pub open spec fn wallet_lines(s: FrameInput) -> Seq<Seq<char>> {
    if s.is_live {
        seq![
            "  "@ + dim() + "Wallet :"@ + reset() + " "@ + short_wallet(s.wallet_address@) + "   "@
                + (if s.usdc_balance >= 1_000_000 { green() } else { red() }) + bold() + "Balance: $"@
                + fixed_text(s.usdc_balance as int, 6, 2) + reset(),
        ]
    } else {
        Seq::empty()
    }
}

/// A price with a dollar sign, or `-` when there is none.
pub open spec fn price_or_dash(v: u64) -> Seq<char> {
    if v > 0 { "$"@ + usd(v) } else { "-"@ }
}

/// The beat price, the current price and the difference between them.
pub open spec fn price_lines(s: FrameInput) -> Seq<Seq<char>> {
    let beat = s.beat_price;
    let cur = s.price;
    let d = cur - beat;
    let sign = if d >= 0 { "+"@ } else { ""@ };
    let diff = if beat > 0 && cur > 0 {
        "  "@ + dim() + "Difference   :"@ + reset() + " "@ + (if d >= 0 { green() } else { red() }) + sign + "$"@
            + fixed_text(d, 8, 2) + "  ("@ + sign + percent_of(cur, beat) + "%)"@ + reset() + "  →  "@ + bold()
            + (if cur > beat { green() } else { red() }) + (if cur > beat { "UP  ↑"@ } else { "DOWN↓"@ }) + reset()
    } else {
        ""@
    };
    seq![
        ""@,
        "  "@ + dim() + "──── "@ + s.asset@ + " Price vs Beat Price ──────────────────────────────"@ + reset(),
        "  "@ + yellow() + "Beat price   :"@ + reset() + " "@ + padl(price_or_dash(beat), 14),
        "  "@ + white() + "Current price:"@ + reset() + " "@ + bold() + padl(price_or_dash(cur), 14) + reset(),
        diff,
    ]
}

/// The status line and the tick time.
pub open spec fn footer_lines(s: FrameInput) -> Seq<Seq<char>> {
    seq![
        ""@,
        "  "@ + dim() + "Status: "@ + reset() + status_text(s.status),
        "  "@ + dim() + "tick "@ + dec_digits(s.last_tick_ms as nat) + "ms  │  Ctrl+C to stop"@ + reset(),
    ]
}

fn push_header(out: &mut String, s: &FrameInput, now: i64, Ghost(base): Ghost<Seq<char>>, Ghost(lines): Ghost<Seq<Seq<char>>>)
    requires
        old(out)@ == base + screen(lines),
    ensures
        final(out)@ == base + screen(lines + header_lines(*s, now)),
{
    let ghost mut ls = lines;
    let mut l1 = "\x1b[1m".to_owned();
    append(&mut l1, "\x1b[36m");
    append(&mut l1, "╔══════════════════════════════════════════════════════════════════╗");
    append(&mut l1, "\x1b[0m");
    emit(out, l1.as_str(), Ghost(base), Ghost(ls));
    proof { ls = ls.push(l1@); }
    let mut l2 = "\x1b[1m".to_owned();
    append(&mut l2, "\x1b[36m");
    append(&mut l2, "║  ");
    append(&mut l2, s.asset.as_str());
    append(&mut l2, " Polymarket Last-Minute Bot  ─  ");
    let mode = pad_r(if s.is_live { "REAL (live orders)" } else { "TEST (paper)" }, 32);
    append(&mut l2, mode.as_str());
    append(&mut l2, "\x1b[36m");
    append(&mut l2, "║");
    append(&mut l2, "\x1b[0m");
    emit(out, l2.as_str(), Ghost(base), Ghost(ls));
    proof { ls = ls.push(l2@); }
    let mut l3 = "\x1b[1m".to_owned();
    append(&mut l3, "\x1b[36m");
    append(&mut l3, "╚══════════════════════════════════════════════════════════════════╝");
    append(&mut l3, "\x1b[0m");
    emit(out, l3.as_str(), Ghost(base), Ghost(ls));
    proof { ls = ls.push(l3@); }
    let mut l4 = "  ".to_owned();
    append(&mut l4, "\x1b[2m");
    append(&mut l4, "Time   :");
    append(&mut l4, "\x1b[0m");
    append(&mut l4, " ");
    let t = utc_text_or_exec(now, "%Y-%m-%dT%H:%M:%S UTC", "");
    append(&mut l4, t.as_str());
    append(&mut l4, "   Poll #");
    let pc = u64_to_decimal(s.poll_count);
    append(&mut l4, pc.as_str());
    emit(out, l4.as_str(), Ghost(base), Ghost(ls));
    proof { ls = ls.push(l4@); }
    let mut l5 = "  ".to_owned();
    append(&mut l5, "\x1b[2m");
    append(&mut l5, "Market :");
    append(&mut l5, "\x1b[0m");
    append(&mut l5, " ");
    let empty = s.market_slug.as_str().unicode_len() == 0;
    append(&mut l5, if empty { "resolving…" } else { s.market_slug.as_str() });
    append(&mut l5, "  (");
    append(&mut l5, "\x1b[36m");
    let left = if empty { String::new() } else { time_left_at(s.end_time, now) };
    proof {
        if empty {
            assert(left@ =~= ""@) by {
                reveal_strlit("");
            }
        }
    }
    append(&mut l5, left.as_str());
    append(&mut l5, "\x1b[0m");
    append(&mut l5, ")");
    emit(out, l5.as_str(), Ghost(base), Ghost(ls));
    proof {
        ls = ls.push(l5@);
        assert(ls =~= lines + header_lines(*s, now));
    }
}

fn push_wallet(out: &mut String, s: &FrameInput, Ghost(base): Ghost<Seq<char>>, Ghost(lines): Ghost<Seq<Seq<char>>>)
    requires
        old(out)@ == base + screen(lines),
        wallet_shown(*s),
    ensures
        final(out)@ == base + screen(lines + wallet_lines(*s)),
{
    if !s.is_live {
        assert(lines + wallet_lines(*s) =~= lines);
        return;
    }
    let cs = str_chars(s.wallet_address.as_str());
    let mut w = String::new();
    if cs.len() == 0 {
        append(&mut w, "deriving…");
        assert(w@ =~= "deriving…"@);
    } else {
        let mut i: usize = 0;
        while i < 6
            invariant
                i <= 6 <= cs@.len(),
                w@ == cs@.take(i as int),
            decreases 6 - i,
        {
            push_char(&mut w, cs[i]);
            assert(cs@.take(i + 1) =~= cs@.take(i as int).push(cs@[i as int]));
            i = i + 1;
        }
        append(&mut w, "…");
        let ghost mid = w@;
        let mut j: usize = cs.len() - 4;
        while j < cs.len()
            invariant
                cs@.len() >= 6,
                cs@.len() - 4 <= j <= cs@.len(),
                w@ == mid + cs@.subrange(cs@.len() - 4, j as int),
            decreases cs@.len() - j,
        {
            push_char(&mut w, cs[j]);
            assert(cs@.subrange(cs@.len() - 4, j + 1) =~= cs@.subrange(cs@.len() - 4, j as int).push(cs@[j as int]));
            j = j + 1;
        }
    }
    let mut l = "  ".to_owned();
    append(&mut l, "\x1b[2m");
    append(&mut l, "Wallet :");
    append(&mut l, "\x1b[0m");
    append(&mut l, " ");
    append(&mut l, w.as_str());
    append(&mut l, "   ");
    append(&mut l, if s.usdc_balance >= 1_000_000 { "\x1b[32m" } else { "\x1b[31m" });
    append(&mut l, "\x1b[1m");
    append(&mut l, "Balance: $");
    let b = fixed_u64(s.usdc_balance, 6, 2);
    append(&mut l, b.as_str());
    append(&mut l, "\x1b[0m");
    emit(out, l.as_str(), Ghost(base), Ghost(lines));
    proof {
        assert(w@ == short_wallet(s.wallet_address@));
        assert(lines.push(l@) =~= lines + wallet_lines(*s));
    }
}

fn price_or_dash_text(v: u64) -> (res: String)
    ensures
        res@ == price_or_dash(v),
{
    if v > 0 {
        let mut out = "$".to_owned();
        let u = usd_text(v);
        append(&mut out, u.as_str());
        out
    } else {
        "-".to_owned()
    }
}

fn push_prices(out: &mut String, s: &FrameInput, Ghost(base): Ghost<Seq<char>>, Ghost(lines): Ghost<Seq<Seq<char>>>)
    requires
        old(out)@ == base + screen(lines),
    ensures
        final(out)@ == base + screen(lines + price_lines(*s)),
{
    let ghost mut ls = lines;
    emit(out, "", Ghost(base), Ghost(ls));
    proof { ls = ls.push(""@); }
    let mut l2 = "  ".to_owned();
    append(&mut l2, "\x1b[2m");
    append(&mut l2, "──── ");
    append(&mut l2, s.asset.as_str());
    append(&mut l2, " Price vs Beat Price ──────────────────────────────");
    append(&mut l2, "\x1b[0m");
    emit(out, l2.as_str(), Ghost(base), Ghost(ls));
    proof { ls = ls.push(l2@); }
    let mut l3 = "  ".to_owned();
    append(&mut l3, "\x1b[33m");
    append(&mut l3, "Beat price   :");
    append(&mut l3, "\x1b[0m");
    append(&mut l3, " ");
    let bp = price_or_dash_text(s.beat_price);
    let bpp = pad_l(bp.as_str(), 14);
    append(&mut l3, bpp.as_str());
    emit(out, l3.as_str(), Ghost(base), Ghost(ls));
    proof { ls = ls.push(l3@); }
    let mut l4 = "  ".to_owned();
    append(&mut l4, "\x1b[37m");
    append(&mut l4, "Current price:");
    append(&mut l4, "\x1b[0m");
    append(&mut l4, " ");
    append(&mut l4, "\x1b[1m");
    let cp = price_or_dash_text(s.price);
    let cpp = pad_l(cp.as_str(), 14);
    append(&mut l4, cpp.as_str());
    append(&mut l4, "\x1b[0m");
    emit(out, l4.as_str(), Ghost(base), Ghost(ls));
    proof { ls = ls.push(l4@); }
    let beat = s.beat_price;
    let cur = s.price;
    if beat > 0 && cur > 0 {
        let d: i128 = cur as i128 - beat as i128;
        let up = d >= 0;
        let sign = if up { "+" } else { "" };
        let mut l5 = "  ".to_owned();
        append(&mut l5, "\x1b[2m");
        append(&mut l5, "Difference   :");
        append(&mut l5, "\x1b[0m");
        append(&mut l5, " ");
        append(&mut l5, if up { "\x1b[32m" } else { "\x1b[31m" });
        append(&mut l5, sign);
        append(&mut l5, "$");
        let dt = fixed_i(d, 8, 2);
        append(&mut l5, dt.as_str());
        append(&mut l5, "  (");
        append(&mut l5, sign);
        let m: u128 = if d < 0 { (-d) as u128 } else { d as u128 };
        assert(pow10(3) == 1000) by {
            reveal_with_fuel(pow10, 4);
        }
        assert(m * 100 * 1000 <= u128::MAX) by (nonlinear_arith)
            requires m <= 0x1_0000_0000_0000_0000u128;
        let pt = number_text_of(d < 0, m * 100, beat as u128, 3);
        append(&mut l5, pt.as_str());
        append(&mut l5, "%)");
        append(&mut l5, "\x1b[0m");
        append(&mut l5, "  →  ");
        append(&mut l5, "\x1b[1m");
        append(&mut l5, if cur > beat { "\x1b[32m" } else { "\x1b[31m" });
        append(&mut l5, if cur > beat { "UP  ↑" } else { "DOWN↓" });
        append(&mut l5, "\x1b[0m");
        emit(out, l5.as_str(), Ghost(base), Ghost(ls));
        proof {
            ls = ls.push(l5@);
            assert(ls =~= lines + price_lines(*s));
        }
    } else {
        emit(out, "", Ghost(base), Ghost(ls));
        proof {
            ls = ls.push(""@);
            assert(ls =~= lines + price_lines(*s));
        }
    }
}

fn push_footer(out: &mut String, s: &FrameInput, Ghost(base): Ghost<Seq<char>>, Ghost(lines): Ghost<Seq<Seq<char>>>)
    requires
        old(out)@ == base + screen(lines),
    ensures
        final(out)@ == base + screen(lines + footer_lines(*s)),
{
    let ghost mut ls = lines;
    emit(out, "", Ghost(base), Ghost(ls));
    proof { ls = ls.push(""@); }
    let mut l2 = "  ".to_owned();
    append(&mut l2, "\x1b[2m");
    append(&mut l2, "Status: ");
    append(&mut l2, "\x1b[0m");
    let st = status_line_text(&s.status);
    append(&mut l2, st.as_str());
    emit(out, l2.as_str(), Ghost(base), Ghost(ls));
    proof { ls = ls.push(l2@); }
    let mut l3 = "  ".to_owned();
    append(&mut l3, "\x1b[2m");
    append(&mut l3, "tick ");
    let t = u64_to_decimal(s.last_tick_ms);
    append(&mut l3, t.as_str());
    append(&mut l3, "ms  │  Ctrl+C to stop");
    append(&mut l3, "\x1b[0m");
    emit(out, l3.as_str(), Ghost(base), Ghost(ls));
    proof {
        ls = ls.push(l3@);
        assert(ls =~= lines + footer_lines(*s));
    }
}

/// The completed candles, oldest first, then the one being built.
pub open spec fn all_candles(h: CandleHistory) -> Seq<Candle> {
    match h.current_candle {
        Some(c) => h.candles@.push(c),
        None => h.candles@,
    }
}

/// The last `n` items of `s` (all of them when there are fewer).
pub open spec fn last_n<A>(s: Seq<A>, n: nat) -> Seq<A> {
    if s.len() <= n { s } else { s.subrange(s.len() - n, s.len() as int) }
}

/// A candle's direction and its open, high, low and close to one place.
pub open spec fn candle_bar(c: Candle) -> Seq<char> {
    (if c.close >= c.open { "▲"@ } else { "▼"@ }) + " O:"@ + fixed_text(c.open as int, 8, 1) + " H:"@
        + fixed_text(c.high as int, 8, 1) + " L:"@ + fixed_text(c.low as int, 8, 1) + " C:"@ + fixed_text(c.close as int, 8, 1)
}

/// A candle's line: its UTC minute (`??:??` when there is none), then its bar.
pub open spec fn candle_line(c: Candle) -> Seq<char> {
    "  "@ + dim() + "["@ + utc_text_or(c.start_ts, "%H:%M"@, "??:??"@) + "]"@ + reset() + "  "@
        + (if c.close >= c.open { green() } else { red() }) + candle_bar(c) + reset()
}

/// The last three one-minute candles.
pub open spec fn candle_lines(h: CandleHistory) -> Seq<Seq<char>> {
    let all = all_candles(h);
    seq![""@, "  "@ + dim() + "──── 1-Minute Candles ──────────────────────────────────"@ + reset()] + (if all.len() == 0 {
        seq!["  "@ + dim() + "(no candle data yet)"@ + reset()]
    } else {
        last_n(all, 3).map_values(|c: Candle| candle_line(c))
    })
}

fn candle_line_text(c: Candle) -> (res: String)
    ensures
        res@ == candle_line(c),
{
    let mut l = "  ".to_owned();
    append(&mut l, "\x1b[2m");
    append(&mut l, "[");
    let t = utc_text_or_exec(c.start_ts, "%H:%M", "??:??");
    append(&mut l, t.as_str());
    append(&mut l, "]");
    append(&mut l, "\x1b[0m");
    append(&mut l, "  ");
    append(&mut l, if c.close >= c.open { "\x1b[32m" } else { "\x1b[31m" });
    let mut bar = (if c.close >= c.open { "▲" } else { "▼" }).to_owned();
    append(&mut bar, " O:");
    let o = fixed_u64(c.open, 8, 1);
    append(&mut bar, o.as_str());
    append(&mut bar, " H:");
    let h = fixed_u64(c.high, 8, 1);
    append(&mut bar, h.as_str());
    append(&mut bar, " L:");
    let lo = fixed_u64(c.low, 8, 1);
    append(&mut bar, lo.as_str());
    append(&mut bar, " C:");
    let cl = fixed_u64(c.close, 8, 1);
    append(&mut bar, cl.as_str());
    append(&mut l, bar.as_str());
    append(&mut l, "\x1b[0m");
    l
}

fn push_candles(out: &mut String, h: &CandleHistory, Ghost(base): Ghost<Seq<char>>, Ghost(lines): Ghost<Seq<Seq<char>>>)
    requires
        old(out)@ == base + screen(lines),
    ensures
        final(out)@ == base + screen(lines + candle_lines(*h)),
{
    let ghost mut ls = lines;
    emit(out, "", Ghost(base), Ghost(ls));
    proof { ls = ls.push(""@); }
    let mut l2 = "  ".to_owned();
    append(&mut l2, "\x1b[2m");
    append(&mut l2, "──── 1-Minute Candles ──────────────────────────────────");
    append(&mut l2, "\x1b[0m");
    emit(out, l2.as_str(), Ghost(base), Ghost(ls));
    proof { ls = ls.push(l2@); }
    let ghost head = ls;
    let mut all = h.last_completed();
    match h.current_candle {
        Some(c) => all.push(c),
        None => {},
    }
    assert(all@ == all_candles(*h));
    if all.len() == 0 {
        let mut l = "  ".to_owned();
        append(&mut l, "\x1b[2m");
        append(&mut l, "(no candle data yet)");
        append(&mut l, "\x1b[0m");
        emit(out, l.as_str(), Ghost(base), Ghost(ls));
        proof {
            ls = ls.push(l@);
            assert(ls =~= lines + candle_lines(*h));
        }
        return;
    }
    let start: usize = if all.len() > 3 { all.len() - 3 } else { 0 };
    let mut i: usize = start;
    while i < all.len()
        invariant
            start <= i <= all@.len(),
            out@ == base + screen(ls),
            ls == head + all@.subrange(start as int, i as int).map_values(|c: Candle| candle_line(c)),
        decreases all@.len() - i,
    {
        let l = candle_line_text(all[i]);
        emit(out, l.as_str(), Ghost(base), Ghost(ls));
        proof {
            assert(all@.subrange(start as int, i + 1).map_values(|c: Candle| candle_line(c))
                =~= all@.subrange(start as int, i as int).map_values(|c: Candle| candle_line(c)).push(candle_line(all@[i as int])));
            ls = ls.push(l@);
        }
        i = i + 1;
    }
    proof {
        assert(all@.subrange(start as int, all@.len() as int) =~= last_n(all@, 3));
        assert(ls =~= lines + candle_lines(*h));
    }
}

/// The book shown: while a market has just ended, the book read after its
/// close when there is one.
pub open spec fn shown_book(s: FrameInput) -> Orderbook {
    match s.phase {
        MarketPhase::JustEnded { .. } => match s.post_market_book {
            Some(b) => b,
            None => s.book,
        },
        _ => s.book,
    }
}

/// Row `i` of an ask table: price, size, value, and the value of the levels
/// up to it.
pub open spec fn ask_row(asks: Seq<OrderLevel>, i: int, color: Seq<char>) -> Seq<char> {
    let l = asks[i];
    "    "@ + padr(fixed_text(l.price as int, 6, 4), 8) + "  "@ + color + padl(fixed_text(l.size as int, 6, 3), 10) + reset() + "  "@
        + padl("$"@ + fixed_text(level_value(l) as int, 6, 2), 10) + "  "@
        + padl("$"@ + fixed_text(total_value(asks.take(i + 1)) as int, 6, 2), 10)
}

/// An ask table: up to five levels with a running total, and how many more
/// there are.
pub open spec fn ask_table(label: Seq<char>, asks: Seq<OrderLevel>, color: Seq<char>) -> Seq<Seq<char>> {
    let n: nat = if asks.len() < 5 { asks.len() } else { 5 };
    seq!["  "@ + bold() + color + label + " — "@ + dec_digits(n) + " level(s)"@ + reset()] + (if n == 0 {
        seq!["    "@ + dim() + "(no asks)"@ + reset()]
    } else {
        seq![
            "    "@ + dim() + padr("Price"@, 8) + "  "@ + padl("Size"@, 10) + "  "@ + padl("Value$"@, 10) + "  "@ + padl("Cum$"@, 10)
                + reset(),
        ] + Seq::new(n, |i: int| ask_row(asks, i, color)) + (if asks.len() > 5 {
            seq!["    "@ + dim() + "… "@ + dec_digits((asks.len() - 5) as nat) + " more levels"@ + reset()]
        } else {
            Seq::empty()
        })
    })
}

/// Both sides' asks of the book shown.
pub open spec fn book_lines(s: FrameInput) -> Seq<Seq<char>> {
    let b = shown_book(s);
    seq![""@, "  "@ + dim() + "──── Orderbook — 5 Ask Levels ─────────────────────────"@ + reset()]
        + ask_table("UP   asks"@, b.up.asks@, green()) + seq![""@] + ask_table("DOWN asks"@, b.down.asks@, red())
}

proof fn lemma_level_value_bound(l: OrderLevel)
    ensures
        level_value(l) <= 340_282_366_920_938_463_463_374_607_431_769,
{
    let p = l.price as nat;
    let z = l.size as nat;
    assert(p * z <= 0xffff_ffff_ffff_ffff * 0xffff_ffff_ffff_ffff) by (nonlinear_arith)
        requires p <= 0xffff_ffff_ffff_ffff, z <= 0xffff_ffff_ffff_ffff;
    assert((p * z) / 1_000_000 <= 340_282_366_920_938_463_463_374_607_431_769) by (nonlinear_arith)
        requires p * z <= 0xffff_ffff_ffff_ffff * 0xffff_ffff_ffff_ffff;
}

/// `$` and an amount in millionths to the cent.
fn dollars_text(v: u128) -> (res: String)
    requires
        v <= 2_000_000_000_000_000_000_000_000_000_000_000,
    ensures
        res@ == "$"@ + fixed_text(v as int, 6, 2),
{
    assert(pow10(2) == 100) by {
        reveal_with_fuel(pow10, 3);
    }
    let mut out = "$".to_owned();
    let t = fixed_u(v, 6, 2);
    append(&mut out, t.as_str());
    out
}

fn push_ask_table(
    out: &mut String,
    label: &str,
    book: &TokenBook,
    color: &str,
    Ghost(base): Ghost<Seq<char>>,
    Ghost(lines): Ghost<Seq<Seq<char>>>,
)
    requires
        old(out)@ == base + screen(lines),
    ensures
        final(out)@ == base + screen(lines + ask_table(label@, book.asks@, color@)),
{
    let ghost mut ls = lines;
    let asks = &book.asks;
    let n: usize = if asks.len() < 5 { asks.len() } else { 5 };
    let mut l1 = "  ".to_owned();
    append(&mut l1, "\x1b[1m");
    append(&mut l1, color);
    append(&mut l1, label);
    append(&mut l1, " — ");
    let nt = u128_to_decimal(n as u128);
    append(&mut l1, nt.as_str());
    append(&mut l1, " level(s)");
    append(&mut l1, "\x1b[0m");
    emit(out, l1.as_str(), Ghost(base), Ghost(ls));
    proof { ls = ls.push(l1@); }
    if n == 0 {
        let mut l = "    ".to_owned();
        append(&mut l, "\x1b[2m");
        append(&mut l, "(no asks)");
        append(&mut l, "\x1b[0m");
        emit(out, l.as_str(), Ghost(base), Ghost(ls));
        proof {
            ls = ls.push(l@);
            assert(ls =~= lines + ask_table(label@, book.asks@, color@));
        }
        return;
    }
    let mut l2 = "    ".to_owned();
    append(&mut l2, "\x1b[2m");
    let c1 = pad_r("Price", 8);
    append(&mut l2, c1.as_str());
    append(&mut l2, "  ");
    let c2 = pad_l("Size", 10);
    append(&mut l2, c2.as_str());
    append(&mut l2, "  ");
    let c3 = pad_l("Value$", 10);
    append(&mut l2, c3.as_str());
    append(&mut l2, "  ");
    let c4 = pad_l("Cum$", 10);
    append(&mut l2, c4.as_str());
    append(&mut l2, "\x1b[0m");
    emit(out, l2.as_str(), Ghost(base), Ghost(ls));
    proof { ls = ls.push(l2@); }
    let ghost head = ls;
    let mut cum: u128 = 0;
    let mut i: usize = 0;
    while i < n
        invariant
            n <= 5,
            n <= asks@.len(),
            asks@ == book.asks@,
            i <= n,
            cum == total_value(asks@.take(i as int)),
            cum <= i * 340_282_366_920_938_463_463_374_607_431_769,
            out@ == base + screen(ls),
            ls == head + Seq::new(i as nat, |k: int| ask_row(asks@, k, color@)),
        decreases n - i,
    {
        let level = asks[i];
        let v = level.value();
        proof {
            lemma_level_value_bound(level);
            assert(asks@.take(i + 1).drop_last() =~= asks@.take(i as int));
        }
        cum = cum + v;
        let mut l = "    ".to_owned();
        let pt = fixed_u64(level.price, 6, 4);
        let pp = pad_r(pt.as_str(), 8);
        append(&mut l, pp.as_str());
        append(&mut l, "  ");
        append(&mut l, color);
        let st = fixed_u64(level.size, 6, 3);
        let sp = pad_l(st.as_str(), 10);
        append(&mut l, sp.as_str());
        append(&mut l, "\x1b[0m");
        append(&mut l, "  ");
        let vt = dollars_text(v);
        let vp = pad_l(vt.as_str(), 10);
        append(&mut l, vp.as_str());
        append(&mut l, "  ");
        let ct = dollars_text(cum);
        let cp = pad_l(ct.as_str(), 10);
        append(&mut l, cp.as_str());
        emit(out, l.as_str(), Ghost(base), Ghost(ls));
        proof {
            assert(l@ == ask_row(asks@, i as int, color@));
            assert(Seq::new((i + 1) as nat, |k: int| ask_row(asks@, k, color@))
                =~= Seq::new(i as nat, |k: int| ask_row(asks@, k, color@)).push(ask_row(asks@, i as int, color@)));
            ls = ls.push(l@);
        }
        i = i + 1;
    }
    if asks.len() > 5 {
        let mut l = "    ".to_owned();
        append(&mut l, "\x1b[2m");
        append(&mut l, "… ");
        let mt = u128_to_decimal((asks.len() - 5) as u128);
        append(&mut l, mt.as_str());
        append(&mut l, " more levels");
        append(&mut l, "\x1b[0m");
        emit(out, l.as_str(), Ghost(base), Ghost(ls));
        proof {
            ls = ls.push(l@);
            assert(ls =~= lines + ask_table(label@, book.asks@, color@));
        }
    } else {
        assert(ls =~= lines + ask_table(label@, book.asks@, color@));
    }
}

fn push_books(out: &mut String, s: &FrameInput, Ghost(base): Ghost<Seq<char>>, Ghost(lines): Ghost<Seq<Seq<char>>>)
    requires
        old(out)@ == base + screen(lines),
    ensures
        final(out)@ == base + screen(lines + book_lines(*s)),
{
    let shown: &Orderbook = match s.phase {
        MarketPhase::JustEnded { .. } => match &s.post_market_book {
            Some(b) => b,
            None => &s.book,
        },
        _ => &s.book,
    };
    assert(*shown == shown_book(*s));
    let ghost mut ls = lines;
    emit(out, "", Ghost(base), Ghost(ls));
    proof { ls = ls.push(""@); }
    let mut l2 = "  ".to_owned();
    append(&mut l2, "\x1b[2m");
    append(&mut l2, "──── Orderbook — 5 Ask Levels ─────────────────────────");
    append(&mut l2, "\x1b[0m");
    emit(out, l2.as_str(), Ghost(base), Ghost(ls));
    proof { ls = ls.push(l2@); }
    push_ask_table(out, "UP   asks", &shown.up, "\x1b[32m", Ghost(base), Ghost(ls));
    proof { ls = ls + ask_table("UP   asks"@, shown.up.asks@, green()); }
    emit(out, "", Ghost(base), Ghost(ls));
    proof { ls = ls.push(""@); }
    push_ask_table(out, "DOWN asks", &shown.down, "\x1b[31m", Ghost(base), Ghost(ls));
    proof {
        ls = ls + ask_table("DOWN asks"@, shown.down.asks@, red());
        assert(ls =~= lines + book_lines(*s));
    }
}

/// A row of the winner's asks below one dollar.
pub open spec fn below_row(l: OrderLevel) -> Seq<char> {
    "    "@ + yellow() + padr(fixed_text(l.price as int, 6, 4), 8) + "  "@ + padl(fixed_text(l.size as int, 6, 3), 10) + "  "@
        + padl("$"@ + fixed_text(level_value(l) as int, 6, 2), 10) + reset()
}

/// The winner's asks below one dollar: up to five, and how many more.
pub open spec fn below_lines(below: Seq<OrderLevel>, name: Seq<char>) -> Seq<Seq<char>> {
    if below.len() == 0 {
        seq!["  "@ + dim() + "Winner ("@ + name + ") asks below $1.00: none"@ + reset()]
    } else {
        let n: nat = if below.len() < 5 { below.len() } else { 5 };
        seq![
            "  "@ + bold() + yellow() + "Winner ("@ + name + ") asks below $1.00 — "@ + dec_digits(below.len()) + " level(s)"@ + reset(),
            "    "@ + dim() + padr("Price"@, 8) + "  "@ + padl("Size"@, 10) + "  "@ + padl("Value$"@, 10) + reset(),
        ] + Seq::new(n, |i: int| below_row(below[i])) + (if below.len() > 5 {
            seq!["    "@ + dim() + "… "@ + dec_digits((below.len() - 5) as nat) + " more"@ + reset()]
        } else {
            Seq::empty()
        })
    }
}

/// An order id cut to its first 14 characters.
pub open spec fn short_id(id: Seq<char>) -> Seq<char> {
    if id.len() <= 14 { id } else { id.take(14) }
}

/// A row of the trades table.
pub open spec fn trade_row(t: BotTrade) -> Seq<char> {
    "    "@ + padr(utc_text_or(t.ts, "%H:%M:%S"@, ""@), 8) + "  "@ + (if t.outcome == Outcome::Up { green() } else { red() })
        + padr(side_upper(t.outcome), 5) + reset() + "  "@ + padr(fixed_text(t.shares as int, 6, 3), 8) + "  "@
        + padr("$"@ + fixed_text(t.usdc_spent as int, 6, 2), 8) + "  "@ + short_id(t.order_id@)
}

/// The trades table: the ten latest trades, newest first.
pub open spec fn trades_table(ts: Seq<BotTrade>) -> Seq<Seq<char>> {
    let n: nat = if ts.len() < 10 { ts.len() } else { 10 };
    seq![
        "    "@ + dim() + padr("Time"@, 8) + "  "@ + padr("Side"@, 5) + "  "@ + padr("Shares"@, 8) + "  "@ + padr("USDC"@, 8) + "  "@
            + "OrderID"@ + reset(),
    ] + Seq::new(n, |i: int| trade_row(ts[ts.len() - 1 - i]))
}

pub open spec fn trades_heading() -> Seq<char> {
    "  "@ + dim() + "── Trades this market ────────────────────────────────"@ + reset()
}

pub open spec fn winner_name(w: Option<Outcome>) -> Seq<char> {
    match w {
        Some(o) => side_upper(o),
        None => ""@,
    }
}

/// The window's time left, and the winner with the beat and end prices.
pub open spec fn ended_head(s: FrameInput, now: i64, ended_at: i64) -> Seq<Seq<char>> {
    let remaining = remaining_of(now, ended_at, s.post_market_secs);
    let win_color = if s.post_market_winner == Some(Outcome::Up) { green() } else { red() };
    seq![
        ""@,
        if remaining > 0 {
            "  "@ + bold() + yellow() + "▶ POST-MARKET WINDOW — "@ + dec_signed(remaining as int) + "s remaining"@ + reset()
        } else {
            "  "@ + dim() + "Window closed"@ + reset()
        },
        "  "@ + bold() + win_color + "══ MARKET ENDED  Winner: "@ + winner_name(s.post_market_winner) + reset() + bold() + "  Beat: $"@
            + usd(s.post_market_beat) + "  End: $"@ + usd(s.post_market_end) + " ══"@ + win_color + reset(),
    ]
}

/// The winner's asks below one dollar in the book read after the close.
pub open spec fn ended_book(s: FrameInput) -> Seq<Seq<char>> {
    match s.post_market_book {
        Some(ob) => seq![""@] + below_lines(
            below_one_dollar(if s.post_market_winner == Some(Outcome::Up) { ob.up.asks@ } else { ob.down.asks@ }),
            winner_name(s.post_market_winner),
        ),
        None => Seq::empty(),
    }
}

/// The trades made in the market that ended.
pub open spec fn ended_trades(s: FrameInput) -> Seq<Seq<char>> {
    if s.post_market_trades@.len() == 0 {
        seq!["  "@ + dim() + "No trades placed this market."@ + reset()]
    } else {
        seq![trades_heading()] + trades_table(s.post_market_trades@)
    }
}

/// After a market's close: the window's time left, the winner with the beat
/// and end prices, the winner's asks below one dollar and the trades made;
/// otherwise the trades of the current market, if any.
pub open spec fn post_lines(s: FrameInput, now: i64) -> Seq<Seq<char>> {
    match s.phase {
        MarketPhase::JustEnded { ended_at, .. } => ended_head(s, now, ended_at) + ended_book(s) + seq![""@] + ended_trades(s),
        _ => if s.bot_trades@.len() == 0 {
            Seq::empty()
        } else {
            seq![""@, trades_heading()] + trades_table(s.bot_trades@)
        },
    }
}

fn below_row_text(l: OrderLevel) -> (res: String)
    ensures
        res@ == below_row(l),
{
    let mut out = "    ".to_owned();
    append(&mut out, "\x1b[33m");
    let pt = fixed_u64(l.price, 6, 4);
    let pp = pad_r(pt.as_str(), 8);
    append(&mut out, pp.as_str());
    append(&mut out, "  ");
    let st = fixed_u64(l.size, 6, 3);
    let sp = pad_l(st.as_str(), 10);
    append(&mut out, sp.as_str());
    append(&mut out, "  ");
    let v = l.value();
    proof {
        lemma_level_value_bound(l);
    }
    let vt = dollars_text(v);
    let vp = pad_l(vt.as_str(), 10);
    append(&mut out, vp.as_str());
    append(&mut out, "\x1b[0m");
    out
}

fn push_below(out: &mut String, below: &Vec<OrderLevel>, name: &str, Ghost(base): Ghost<Seq<char>>, Ghost(lines): Ghost<Seq<Seq<char>>>)
    requires
        old(out)@ == base + screen(lines),
    ensures
        final(out)@ == base + screen(lines + below_lines(below@, name@)),
{
    let ghost mut ls = lines;
    if below.len() == 0 {
        let mut l = "  ".to_owned();
        append(&mut l, "\x1b[2m");
        append(&mut l, "Winner (");
        append(&mut l, name);
        append(&mut l, ") asks below $1.00: none");
        append(&mut l, "\x1b[0m");
        emit(out, l.as_str(), Ghost(base), Ghost(ls));
        proof {
            ls = ls.push(l@);
            assert(ls =~= lines + below_lines(below@, name@));
        }
        return;
    }
    let mut l1 = "  ".to_owned();
    append(&mut l1, "\x1b[1m");
    append(&mut l1, "\x1b[33m");
    append(&mut l1, "Winner (");
    append(&mut l1, name);
    append(&mut l1, ") asks below $1.00 — ");
    let nt = u128_to_decimal(below.len() as u128);
    append(&mut l1, nt.as_str());
    append(&mut l1, " level(s)");
    append(&mut l1, "\x1b[0m");
    emit(out, l1.as_str(), Ghost(base), Ghost(ls));
    proof { ls = ls.push(l1@); }
    let mut l2 = "    ".to_owned();
    append(&mut l2, "\x1b[2m");
    let c1 = pad_r("Price", 8);
    append(&mut l2, c1.as_str());
    append(&mut l2, "  ");
    let c2 = pad_l("Size", 10);
    append(&mut l2, c2.as_str());
    append(&mut l2, "  ");
    let c3 = pad_l("Value$", 10);
    append(&mut l2, c3.as_str());
    append(&mut l2, "\x1b[0m");
    emit(out, l2.as_str(), Ghost(base), Ghost(ls));
    proof { ls = ls.push(l2@); }
    let ghost head = ls;
    let n: usize = if below.len() < 5 { below.len() } else { 5 };
    let mut i: usize = 0;
    while i < n
        invariant
            n <= below@.len(),
            i <= n,
            out@ == base + screen(ls),
            ls == head + Seq::new(i as nat, |k: int| below_row(below@[k])),
        decreases n - i,
    {
        let l = below_row_text(below[i]);
        emit(out, l.as_str(), Ghost(base), Ghost(ls));
        proof {
            assert(Seq::new((i + 1) as nat, |k: int| below_row(below@[k]))
                =~= Seq::new(i as nat, |k: int| below_row(below@[k])).push(below_row(below@[i as int])));
            ls = ls.push(l@);
        }
        i = i + 1;
    }
    if below.len() > 5 {
        let mut l = "    ".to_owned();
        append(&mut l, "\x1b[2m");
        append(&mut l, "… ");
        let mt = u128_to_decimal((below.len() - 5) as u128);
        append(&mut l, mt.as_str());
        append(&mut l, " more");
        append(&mut l, "\x1b[0m");
        emit(out, l.as_str(), Ghost(base), Ghost(ls));
        proof {
            ls = ls.push(l@);
            assert(ls =~= lines + below_lines(below@, name@));
        }
    } else {
        assert(ls =~= lines + below_lines(below@, name@));
    }
}

fn short_id_text(id: &str) -> (res: String)
    ensures
        res@ == short_id(id@),
{
    let cs = str_chars(id);
    let n: usize = if cs.len() <= 14 { cs.len() } else { 14 };
    let mut out = String::new();
    let mut i: usize = 0;
    while i < n
        invariant
            n <= cs@.len(),
            i <= n,
            out@ == cs@.take(i as int),
        decreases n - i,
    {
        push_char(&mut out, cs[i]);
        assert(cs@.take(i + 1) =~= cs@.take(i as int).push(cs@[i as int]));
        i = i + 1;
    }
    assert(cs@.take(n as int) =~= short_id(id@));
    out
}

fn trade_row_text(t: &BotTrade) -> (res: String)
    ensures
        res@ == trade_row(*t),
{
    let mut out = "    ".to_owned();
    let tt = utc_text_or_exec(t.ts, "%H:%M:%S", "");
    let tp = pad_r(tt.as_str(), 8);
    append(&mut out, tp.as_str());
    append(&mut out, "  ");
    let up = match t.outcome {
        Outcome::Up => true,
        Outcome::Down => false,
    };
    append(&mut out, if up { "\x1b[32m" } else { "\x1b[31m" });
    let sp = pad_r(side_upper_text(t.outcome), 5);
    append(&mut out, sp.as_str());
    append(&mut out, "\x1b[0m");
    append(&mut out, "  ");
    let sh = fixed_u64(t.shares, 6, 3);
    let shp = pad_r(sh.as_str(), 8);
    append(&mut out, shp.as_str());
    append(&mut out, "  ");
    let mut us = "$".to_owned();
    let ut = fixed_u64(t.usdc_spent, 6, 2);
    append(&mut us, ut.as_str());
    let up2 = pad_r(us.as_str(), 8);
    append(&mut out, up2.as_str());
    append(&mut out, "  ");
    let id = short_id_text(t.order_id.as_str());
    append(&mut out, id.as_str());
    out
}

fn push_trades_table(out: &mut String, trades: &Vec<BotTrade>, Ghost(base): Ghost<Seq<char>>, Ghost(lines): Ghost<Seq<Seq<char>>>)
    requires
        old(out)@ == base + screen(lines),
    ensures
        final(out)@ == base + screen(lines + trades_table(trades@)),
{
    let ghost mut ls = lines;
    let mut l1 = "    ".to_owned();
    append(&mut l1, "\x1b[2m");
    let c1 = pad_r("Time", 8);
    append(&mut l1, c1.as_str());
    append(&mut l1, "  ");
    let c2 = pad_r("Side", 5);
    append(&mut l1, c2.as_str());
    append(&mut l1, "  ");
    let c3 = pad_r("Shares", 8);
    append(&mut l1, c3.as_str());
    append(&mut l1, "  ");
    let c4 = pad_r("USDC", 8);
    append(&mut l1, c4.as_str());
    append(&mut l1, "  ");
    append(&mut l1, "OrderID");
    append(&mut l1, "\x1b[0m");
    emit(out, l1.as_str(), Ghost(base), Ghost(ls));
    proof { ls = ls.push(l1@); }
    let ghost head = ls;
    let n: usize = if trades.len() < 10 { trades.len() } else { 10 };
    let mut i: usize = 0;
    while i < n
        invariant
            n <= trades@.len(),
            i <= n,
            out@ == base + screen(ls),
            ls == head + Seq::new(i as nat, |k: int| trade_row(trades@[trades@.len() - 1 - k])),
        decreases n - i,
    {
        let l = trade_row_text(&trades[trades.len() - 1 - i]);
        emit(out, l.as_str(), Ghost(base), Ghost(ls));
        proof {
            assert(Seq::new((i + 1) as nat, |k: int| trade_row(trades@[trades@.len() - 1 - k]))
                =~= Seq::new(i as nat, |k: int| trade_row(trades@[trades@.len() - 1 - k])).push(
                trade_row(trades@[trades@.len() - 1 - i])));
            ls = ls.push(l@);
        }
        i = i + 1;
    }
    assert(ls =~= lines + trades_table(trades@));
}

fn trades_heading_text() -> (res: String)
    ensures
        res@ == trades_heading(),
{
    let mut l = "  ".to_owned();
    append(&mut l, "\x1b[2m");
    append(&mut l, "── Trades this market ────────────────────────────────");
    append(&mut l, "\x1b[0m");
    l
}

fn winner_name_text(w: Option<Outcome>) -> (res: &'static str)
    ensures
        res@ == winner_name(w),
{
    match w {
        Some(o) => side_upper_text(o),
        None => "",
    }
}

fn push_ended_head(out: &mut String, s: &FrameInput, now: i64, ended_at: i64, Ghost(base): Ghost<Seq<char>>, Ghost(lines): Ghost<Seq<Seq<char>>>)
    requires
        old(out)@ == base + screen(lines),
    ensures
        final(out)@ == base + screen(lines + ended_head(*s, now, ended_at)),
{
    let ghost mut ls = lines;
    let remaining = remaining_secs(now, ended_at, s.post_market_secs);
    let up = match s.post_market_winner {
        Some(Outcome::Up) => true,
        _ => false,
    };
    emit(out, "", Ghost(base), Ghost(ls));
    proof { ls = ls.push(""@); }
    if remaining > 0 {
        let mut l = "  ".to_owned();
        append(&mut l, "\x1b[1m");
        append(&mut l, "\x1b[33m");
        append(&mut l, "▶ POST-MARKET WINDOW — ");
        let r = i64_to_decimal(remaining);
        append(&mut l, r.as_str());
        append(&mut l, "s remaining");
        append(&mut l, "\x1b[0m");
        emit(out, l.as_str(), Ghost(base), Ghost(ls));
        proof { ls = ls.push(l@); }
    } else {
        let mut l = "  ".to_owned();
        append(&mut l, "\x1b[2m");
        append(&mut l, "Window closed");
        append(&mut l, "\x1b[0m");
        emit(out, l.as_str(), Ghost(base), Ghost(ls));
        proof { ls = ls.push(l@); }
    }
    let wc = if up { "\x1b[32m" } else { "\x1b[31m" };
    let mut l3 = "  ".to_owned();
    append(&mut l3, "\x1b[1m");
    append(&mut l3, wc);
    append(&mut l3, "══ MARKET ENDED  Winner: ");
    append(&mut l3, winner_name_text(s.post_market_winner));
    append(&mut l3, "\x1b[0m");
    append(&mut l3, "\x1b[1m");
    append(&mut l3, "  Beat: $");
    let b = usd_text(s.post_market_beat);
    append(&mut l3, b.as_str());
    append(&mut l3, "  End: $");
    let e = usd_text(s.post_market_end);
    append(&mut l3, e.as_str());
    append(&mut l3, " ══");
    append(&mut l3, wc);
    append(&mut l3, "\x1b[0m");
    emit(out, l3.as_str(), Ghost(base), Ghost(ls));
    proof {
        ls = ls.push(l3@);
        assert(ls =~= lines + ended_head(*s, now, ended_at));
    }
}

fn push_ended_book(out: &mut String, s: &FrameInput, Ghost(base): Ghost<Seq<char>>, Ghost(lines): Ghost<Seq<Seq<char>>>)
    requires
        old(out)@ == base + screen(lines),
    ensures
        final(out)@ == base + screen(lines + ended_book(*s)),
{
    let up = match s.post_market_winner {
        Some(Outcome::Up) => true,
        _ => false,
    };
    match &s.post_market_book {
        Some(ob) => {
            let wb = if up { &ob.up } else { &ob.down };
            let below = wb.asks_below_one_dollar();
            let name = winner_name_text(s.post_market_winner);
            emit(out, "", Ghost(base), Ghost(lines));
            push_below(out, &below, name, Ghost(base), Ghost(lines.push(""@)));
            assert(lines.push(""@) + below_lines(below@, name@) =~= lines + ended_book(*s));
        },
        None => {
            assert(lines + ended_book(*s) =~= lines);
        },
    }
}

fn push_ended_trades(out: &mut String, s: &FrameInput, Ghost(base): Ghost<Seq<char>>, Ghost(lines): Ghost<Seq<Seq<char>>>)
    requires
        old(out)@ == base + screen(lines),
    ensures
        final(out)@ == base + screen(lines + ended_trades(*s)),
{
    if s.post_market_trades.len() == 0 {
        let mut l = "  ".to_owned();
        append(&mut l, "\x1b[2m");
        append(&mut l, "No trades placed this market.");
        append(&mut l, "\x1b[0m");
        emit(out, l.as_str(), Ghost(base), Ghost(lines));
        assert(lines.push(l@) =~= lines + ended_trades(*s));
    } else {
        let h = trades_heading_text();
        emit(out, h.as_str(), Ghost(base), Ghost(lines));
        push_trades_table(out, &s.post_market_trades, Ghost(base), Ghost(lines.push(h@)));
        assert(lines.push(h@) + trades_table(s.post_market_trades@) =~= lines + ended_trades(*s));
    }
}

fn push_post(out: &mut String, s: &FrameInput, now: i64, Ghost(base): Ghost<Seq<char>>, Ghost(lines): Ghost<Seq<Seq<char>>>)
    requires
        old(out)@ == base + screen(lines),
    ensures
        final(out)@ == base + screen(lines + post_lines(*s, now)),
{
    let ghost mut ls = lines;
    match s.phase {
        MarketPhase::JustEnded { ended_at, .. } => {
            push_ended_head(out, s, now, ended_at, Ghost(base), Ghost(ls));
            proof { ls = ls + ended_head(*s, now, ended_at); }
            push_ended_book(out, s, Ghost(base), Ghost(ls));
            proof { ls = ls + ended_book(*s); }
            emit(out, "", Ghost(base), Ghost(ls));
            proof { ls = ls.push(""@); }
            push_ended_trades(out, s, Ghost(base), Ghost(ls));
            proof {
                ls = ls + ended_trades(*s);
                assert(ls =~= lines + post_lines(*s, now));
            }
        },
        _ => {
            if s.bot_trades.len() == 0 {
                assert(lines + post_lines(*s, now) =~= lines);
                return;
            }
            emit(out, "", Ghost(base), Ghost(ls));
            proof { ls = ls.push(""@); }
            let h = trades_heading_text();
            emit(out, h.as_str(), Ghost(base), Ghost(ls));
            proof { ls = ls.push(h@); }
            push_trades_table(out, &s.bot_trades, Ghost(base), Ghost(ls));
            proof {
                ls = ls + trades_table(s.bot_trades@);
                assert(ls =~= lines + post_lines(*s, now));
            }
        },
    }
}

/// Every line of the frame, top to bottom.
pub open spec fn frame_lines(s: FrameInput, now: i64) -> Seq<Seq<char>> {
    header_lines(s, now) + wallet_lines(s) + price_lines(s) + candle_lines(s.candles) + book_lines(s) + post_lines(s, now)
        + footer_lines(s)
}

/// The frame written at clock reading `now`: the cursor moved to the top
/// left, the lines, then whatever the previous frame left below erased.
pub open spec fn frame_text(s: FrameInput, now: i64) -> Seq<char> {
    "\x1B[H"@ + screen(frame_lines(s, now)) + "\x1B[0J"@
}

/// Composes the frame (see `frame_text`).
pub fn render_frame(s: &FrameInput, now: i64) -> (res: String)
    requires
        wallet_shown(*s),
    ensures
        res@ == frame_text(*s, now),
{
    let mut out = "\x1B[H".to_owned();
    let ghost base = out@;
    let ghost mut ls: Seq<Seq<char>> = Seq::empty();
    assert(out@ =~= base + screen(ls));
    push_header(&mut out, s, now, Ghost(base), Ghost(ls));
    proof { ls = ls + header_lines(*s, now); }
    push_wallet(&mut out, s, Ghost(base), Ghost(ls));
    proof { ls = ls + wallet_lines(*s); }
    push_prices(&mut out, s, Ghost(base), Ghost(ls));
    proof { ls = ls + price_lines(*s); }
    push_candles(&mut out, &s.candles, Ghost(base), Ghost(ls));
    proof { ls = ls + candle_lines(s.candles); }
    push_books(&mut out, s, Ghost(base), Ghost(ls));
    proof { ls = ls + book_lines(*s); }
    push_post(&mut out, s, now, Ghost(base), Ghost(ls));
    proof { ls = ls + post_lines(*s, now); }
    push_footer(&mut out, s, Ghost(base), Ghost(ls));
    proof {
        ls = ls + footer_lines(*s);
        assert(ls =~= frame_lines(*s, now));
    }
    append(&mut out, "\x1B[0J");
    out
}

proof fn lemma_ends_with(a: Seq<char>, b: Seq<char>, c: Seq<char>, d: Seq<char>)
    ensures
        (b + c + d).is_suffix_of(a + b + c + d),
{
    let x = b + c + d;
    let l = a + b + c + d;
    assert(l.subrange(l.len() - x.len(), l.len() as int) =~= x);
}

proof fn lemma_starts_with(a: Seq<char>, b: Seq<char>, c: Seq<char>, d: Seq<char>)
    ensures
        (a + b + c).is_prefix_of(a + b + c + d),
{
    let x = a + b + c;
    let l = a + b + c + d;
    assert(l.subrange(0, x.len() as int) =~= x);
}

proof fn lemma_difference_shape(
    lead: Seq<char>, label: Seq<char>, mid: Seq<char>, sign: Seq<char>, amount: Seq<char>, pct: Seq<char>,
    col1: Seq<char>, col2: Seq<char>, dir: Seq<char>,
)
    ensures
        ({
            let l = lead + dim() + label + reset() + " "@ + col1 + sign + "$"@ + amount + "  ("@ + sign + pct + "%)"@ + reset()
                + mid + bold() + col2 + dir + reset();
            &&& (lead + dim() + label).is_prefix_of(l)
            &&& (col2 + dir + reset()).is_suffix_of(l)
        }),
{
    let l = lead + dim() + label + reset() + " "@ + col1 + sign + "$"@ + amount + "  ("@ + sign + pct + "%)"@ + reset()
        + mid + bold() + col2 + dir + reset();
    let head = lead + dim() + label + reset() + " "@ + col1 + sign + "$"@ + amount + "  ("@ + sign + pct + "%)"@ + reset()
        + mid + bold();
    lemma_ends_with(head, col2, dir, reset());
    let x = lead + dim() + label;
    assert(l.subrange(0, x.len() as int) =~= x);
}

/// The difference line: with both prices known it is labelled `Difference`
/// and ends in green `UP  ↑` exactly when the current price is above the
/// beat price, in red `DOWN↓` otherwise; with either price unknown it is
/// blank.
pub proof fn difference_line_direction(s: FrameInput)
    ensures
        ({
            let l = price_lines(s)[4];
            &&& s.beat_price > 0 && s.price > 0 ==> ("  "@ + dim() + "Difference   :"@).is_prefix_of(l)
            &&& s.beat_price > 0 && s.price > 0 && s.price > s.beat_price ==> (green() + "UP  ↑"@ + reset()).is_suffix_of(l)
            &&& s.beat_price > 0 && s.price > 0 && s.price <= s.beat_price ==> (red() + "DOWN↓"@ + reset()).is_suffix_of(l)
            &&& !(s.beat_price > 0 && s.price > 0) ==> l.len() == 0
        }),
{
    reveal_strlit("");
    let beat = s.beat_price;
    let cur = s.price;
    let d = cur - beat;
    let sign = if d >= 0 { "+"@ } else { ""@ };
    let col1 = if d >= 0 { green() } else { red() };
    let col2 = if cur > beat { green() } else { red() };
    let dir = if cur > beat { "UP  ↑"@ } else { "DOWN↓"@ };
    lemma_difference_shape("  "@, "Difference   :"@, "  →  "@, sign, fixed_text(d, 8, 2), percent_of(cur, beat), col1, col2, dir);
}

proof fn lemma_difference_line_index(s: FrameInput, now: i64)
    ensures
        frame_lines(s, now)[9 + (if s.is_live { 1int } else { 0int })] == price_lines(s)[4],
{
    let w: int = if s.is_live { 1 } else { 0 };
    let hw = header_lines(s, now) + wallet_lines(s);
    assert(hw.len() == 5 + w);
    let hwp = hw + price_lines(s);
    assert(hwp[9 + w] == price_lines(s)[4]);
    let f = frame_lines(s, now);
    let rest = candle_lines(s.candles) + book_lines(s) + post_lines(s, now) + footer_lines(s);
    assert(f =~= hwp + rest);
}

/// In the frame, the difference line is the tenth line, or the eleventh
/// when a wallet line is shown; with both prices known it ends in `UP  ↑`
/// exactly when the current price is above the beat price, in `DOWN↓`
/// otherwise.
pub proof fn difference_line_in_frame(s: FrameInput, now: i64)
    ensures
        ({
            let l = frame_lines(s, now)[9 + (if s.is_live { 1int } else { 0int })];
            &&& l == price_lines(s)[4]
            &&& s.beat_price > 0 && s.price > 0 ==> ("  "@ + dim() + "Difference   :"@).is_prefix_of(l)
            &&& s.beat_price > 0 && s.price > 0 && s.price > s.beat_price ==> (green() + "UP  ↑"@ + reset()).is_suffix_of(l)
            &&& s.beat_price > 0 && s.price > 0 && s.price <= s.beat_price ==> (red() + "DOWN↓"@ + reset()).is_suffix_of(l)
        }),
{
    lemma_difference_line_index(s, now);
    difference_line_direction(s);
}

proof fn lemma_active_shape(mm: Seq<char>, p: Seq<char>, b: Seq<char>, d: Seq<char>, pc: Seq<char>, dir: Seq<char>)
    ensures
        dir.is_suffix_of("Active  "@ + mm + " left  BTC $"@ + p + "  Beat $"@ + b + "  Δ"@ + d + " ("@ + pc + "%)  "@ + dir),
{
    let l = "Active  "@ + mm + " left  BTC $"@ + p + "  Beat $"@ + b + "  Δ"@ + d + " ("@ + pc + "%)  "@ + dir;
    assert(l.subrange(l.len() - dir.len(), l.len() as int) =~= dir);
}

/// While a market is open with a known beat price, the status line ends in
/// `↑ UP` exactly when the price is above the beat price, in `↓ DOWN`
/// otherwise.
pub proof fn active_status_direction(secs_left: i64, price: u64, beat: u64)
    ensures
        price > beat ==> "↑ UP"@.is_suffix_of(status_text(Status::Active { secs_left, price, beat })),
        price <= beat ==> "↓ DOWN"@.is_suffix_of(status_text(Status::Active { secs_left, price, beat })),
{
    let dir = if price > beat { "↑ UP"@ } else { "↓ DOWN"@ };
    lemma_active_shape(mm_ss(secs_left as int), usd(price), usd(beat), plus_signed(price - beat, 8, 2), pct_text(price, beat), dir);
}

} // verus!
