//! The text the bot writes: numbers to fixed places, UTC times, the log
//! lines of the trade and PnL files, and the terminal frame.
use vstd::prelude::*;
use crate::text::{dec_digits, pow10, push_char, push_chars, str_chars, u128_to_decimal};
use crate::types::{BotTrade, Outcome};

verus! {

/// `num / den` to `places` decimal places, as a whole number of
/// `10^-places`: rounded to nearest, ties to even (as Rust writes floats).
pub open spec fn rounded(num: nat, den: nat, places: nat) -> nat {
    let m = num * pow10(places);
    let q = m / den;
    let r = m % den;
    if r > den - r || (r == den - r && q % 2 == 1) { q + 1 } else { q }
}

/// `d` with zeros in front up to `w` characters.
pub open spec fn zero_padded(d: Seq<char>, w: nat) -> Seq<char> {
    if d.len() < w { Seq::new((w - d.len()) as nat, |i: int| '0') + d } else { d }
}

/// A whole number of `10^-places` written with `places` decimals.
pub open spec fn fixed_places(q: nat, places: nat) -> Seq<char> {
    dec_digits(q / pow10(places)) + (if places > 0 {
        seq!['.'] + zero_padded(dec_digits(q % pow10(places)), places)
    } else {
        Seq::empty()
    })
}

/// `num / den` (negative when `neg`) written with `places` decimals, a `-`
/// in front of a negative value.
pub open spec fn number_text(neg: bool, num: nat, den: nat, places: nat) -> Seq<char> {
    (if neg { seq!['-'] } else { Seq::empty() }) + fixed_places(rounded(num, den, places), places)
}

/// An amount `v` in units of `10^-scale`, written with `places` decimals.
pub open spec fn fixed_text(v: int, scale: nat, places: nat) -> Seq<char> {
    number_text(v < 0, (if v < 0 { -v } else { v }) as nat, pow10(scale), places)
}

proof fn lemma_pow10_mono(a: nat, b: nat)
    requires
        a <= b,
    ensures
        1 <= pow10(a) <= pow10(b),
    decreases b,
{
    if a < b {
        lemma_pow10_mono(a, (b - 1) as nat);
    } else if a > 0 {
        lemma_pow10_mono((a - 1) as nat, (a - 1) as nat);
    }
}

fn pow10_u128(k: u32) -> (res: u128)
    requires
        k <= 18,
    ensures
        res == pow10(k as nat),
        1 <= res <= 1_000_000_000_000_000_000,
{
    proof {
        lemma_pow10_mono(k as nat, 18);
        reveal_with_fuel(pow10, 19);
        assert(pow10(18) == 1_000_000_000_000_000_000);
    }
    let mut p: u128 = 1;
    let mut i: u32 = 0;
    while i < k
        invariant
            i <= k <= 18,
            p == pow10(i as nat),
            pow10(k as nat) <= 1_000_000_000_000_000_000,
        decreases k - i,
    {
        proof {
            lemma_pow10_mono((i + 1) as nat, k as nat);
        }
        p = p * 10;
        i = i + 1;
    }
    proof {
        lemma_pow10_mono(k as nat, k as nat);
    }
    p
}

/// Appends `s`.
pub(crate) fn append(out: &mut String, s: &str)
    ensures
        final(out)@ == old(out)@ + s@,
{
    let cs = str_chars(s);
    push_chars(out, &cs);
}

fn rounded_exec(num: u128, den: u128, p: u128, places: u32) -> (q: u128)
    requires
        den > 0,
        p == pow10(places as nat),
        num * p <= u128::MAX,
    ensures
        q == rounded(num as nat, den as nat, places as nat),
{
    let m: u128 = num * p;
    let q0: u128 = m / den;
    let r: u128 = m % den;
    if den >= 2 {
        assert(q0 <= m / 2) by (nonlinear_arith)
            requires den >= 2, q0 == m / den;
    } else {
        assert(r == 0);
    }
    if r > den - r || (r == den - r && q0 % 2 == 1) { q0 + 1 } else { q0 }
}

/// Writes `q` as a number of `10^-places` (see `fixed_places`).
fn fixed_places_text(q: u128, p: u128, places: u32) -> (res: String)
    requires
        p == pow10(places as nat),
        p >= 1,
        places <= 18,
    ensures
        res@ == fixed_places(q as nat, places as nat),
{
    let mut out = u128_to_decimal(q / p);
    if places == 0 {
        assert(out@ =~= dec_digits((q / p) as nat) + Seq::<char>::empty());
        return out;
    }
    push_char(&mut out, '.');
    let frac = u128_to_decimal(q % p);
    let fc = str_chars(frac.as_str());
    let mut k: usize = fc.len();
    while k < places as usize
        invariant
            fc.len() <= k,
            k <= places || k == fc.len(),
            out@ == dec_digits((q / p) as nat) + seq!['.'] + Seq::new((k - fc.len()) as nat, |i: int| '0'),
        decreases places - k,
    {
        push_char(&mut out, '0');
        assert(Seq::new((k + 1 - fc.len()) as nat, |i: int| '0') =~= Seq::new((k - fc.len()) as nat, |i: int| '0').push('0'));
        k = k + 1;
    }
    push_chars(&mut out, &fc);
    proof {
        let z = Seq::new((k - fc.len()) as nat, |i: int| '0');
        if fc@.len() < places {
            assert(z =~= Seq::new((places - fc@.len()) as nat, |i: int| '0'));
        } else {
            assert(z =~= Seq::<char>::empty());
        }
        assert(out@ =~= dec_digits((q / p) as nat) + (seq!['.'] + zero_padded(fc@, places as nat)));
    }
    out
}

/// Writes `num / den` (see `number_text`).
pub fn number_text_of(neg: bool, num: u128, den: u128, places: u32) -> (res: String)
    requires
        den > 0,
        places <= 18,
        num * pow10(places as nat) <= u128::MAX,
    ensures
        res@ == number_text(neg, num as nat, den as nat, places as nat),
{
    let p = pow10_u128(places);
    let q = rounded_exec(num, den, p, places);
    let digits = fixed_places_text(q, p, places);
    let mut out = String::new();
    if neg {
        push_char(&mut out, '-');
    }
    append(&mut out, digits.as_str());
    out
}

/// Writes an unsigned amount in units of `10^-scale` with `places`
/// decimals.
pub fn fixed_u(v: u128, scale: u32, places: u32) -> (res: String)
    requires
        scale <= 18,
        places <= 18,
        v * pow10(places as nat) <= u128::MAX,
    ensures
        res@ == fixed_text(v as int, scale as nat, places as nat),
{
    let d = pow10_u128(scale);
    number_text_of(false, v, d, places)
}

/// Writes a `u64` amount in units of `10^-scale` with `places` decimals.
pub fn fixed_u64(v: u64, scale: u32, places: u32) -> (res: String)
    requires
        scale <= 18,
        places <= 18,
    ensures
        res@ == fixed_text(v as int, scale as nat, places as nat),
{
    let p = pow10_u128(places);
    assert(v as u128 * p <= 0xffff_ffff_ffff_ffffu128 * 1_000_000_000_000_000_000u128) by (nonlinear_arith)
        requires v <= 0xffff_ffff_ffff_ffffu64, p <= 1_000_000_000_000_000_000u128;
    fixed_u(v as u128, scale, places)
}

/// Writes a signed amount in units of `10^-scale` with `places` decimals.
pub fn fixed_i(v: i128, scale: u32, places: u32) -> (res: String)
    requires
        scale <= 18,
        places <= 18,
        -0x1_0000_0000_0000_0000 <= v <= 0x1_0000_0000_0000_0000,
    ensures
        res@ == fixed_text(v as int, scale as nat, places as nat),
{
    let d = pow10_u128(scale);
    let p = pow10_u128(places);
    let m: u128 = if v < 0 { (-v) as u128 } else { v as u128 };
    assert(m * p <= 0x1_0000_0000_0000_0000u128 * 1_000_000_000_000_000_000u128) by (nonlinear_arith)
        requires m <= 0x1_0000_0000_0000_0000u128, p <= 1_000_000_000_000_000_000u128;
    number_text_of(v < 0, m, d, places)
}

/// The text chrono writes for Unix second `ts` in format `fmt`, `None`
/// outside chrono's range of dates.
pub uninterp spec fn utc_format_of(ts: i64, fmt: Seq<char>) -> Option<Seq<char>>;

/// A UTC time in one of the formats the bot writes
/// (`chrono::DateTime::from_timestamp(ts, 0)`, then `format(fmt)` written
/// out with `to_string`): `None` when chrono has no date for `ts`. The
/// formats are fixed and well formed, so writing them cannot fail.
#[verifier::external_body]
fn utc_format(ts: i64, fmt: &str) -> (res: Option<String>)
    requires
        fmt@ == "%Y-%m-%dT%H:%M:%S"@ || fmt@ == "%Y-%m-%dT%H:%M:%S UTC"@ || fmt@ == "%H:%M"@ || fmt@ == "%H:%M:%S"@,
    ensures
        match res {
            Some(t) => utc_format_of(ts, fmt@) == Some(t@),
            None => utc_format_of(ts, fmt@) is None,
        },
{
    match chrono::DateTime::from_timestamp(ts, 0) {
        Some(dt) => Some(dt.format(fmt).to_string()),
        None => None,
    }
}

/// A UTC time in a format, or `fallback` when chrono has no date for it.
pub open spec fn utc_text_or(ts: i64, fmt: Seq<char>, fallback: Seq<char>) -> Seq<char> {
    match utc_format_of(ts, fmt) {
        Some(t) => t,
        None => fallback,
    }
}

pub(crate) fn utc_text_or_exec(ts: i64, fmt: &str, fallback: &str) -> (res: String)
    requires
        fmt@ == "%Y-%m-%dT%H:%M:%S"@ || fmt@ == "%Y-%m-%dT%H:%M:%S UTC"@ || fmt@ == "%H:%M"@ || fmt@ == "%H:%M:%S"@,
    ensures
        res@ == utc_text_or(ts, fmt@, fallback@),
{
    match utc_format(ts, fmt) {
        Some(t) => t,
        None => {
            let mut out = String::new();
            append(&mut out, fallback);
            out
        },
    }
}

/// The lower-case name of a side: "up" or "down".
pub open spec fn side_lower(o: Outcome) -> Seq<char> {
    match o {
        Outcome::Up => "up"@,
        Outcome::Down => "down"@,
    }
}

/// The upper-case name of a side: "UP" or "DOWN".
pub open spec fn side_upper(o: Outcome) -> Seq<char> {
    match o {
        Outcome::Up => "UP"@,
        Outcome::Down => "DOWN"@,
    }
}

pub fn side_upper_text(o: Outcome) -> (res: &'static str)
    ensures
        res@ == side_upper(o),
{
    match o {
        Outcome::Up => "UP",
        Outcome::Down => "DOWN",
    }
}

pub(crate) fn side_lower_text(o: Outcome) -> (res: &'static str)
    ensures
        res@ == side_lower(o),
{
    match o {
        Outcome::Up => "up",
        Outcome::Down => "down",
    }
}

pub open spec fn bool_text(b: bool) -> Seq<char> {
    if b { "true"@ } else { "false"@ }
}

fn bool_str(b: bool) -> (res: &'static str)
    ensures
        res@ == bool_text(b),
{
    if b { "true" } else { "false" }
}

/// The time a log line records: `%Y-%m-%dT%H:%M:%S` in UTC, empty when
/// chrono has no date for it.
pub open spec fn log_time(ts: i64) -> Seq<char> {
    utc_text_or(ts, "%Y-%m-%dT%H:%M:%S"@, ""@)
}

/// The header line of a market's trade log.
pub fn trade_log_header() -> (res: String)
    ensures
        res@ == "executed_at,market_slug,outcome,shares,usdc_spent,fill_price,order_id,is_live"@,
{
    let mut out = String::new();
    append(&mut out, "executed_at,market_slug,outcome,shares,usdc_spent,fill_price,order_id,is_live");
    out
}

/// A line of a market's trade log: time, market, side (upper case), shares
/// and USDC to 4 places, fill price to 6, order id, whether live.
pub open spec fn trade_log_text(t: BotTrade) -> Seq<char> {
    log_time(t.ts) + ","@ + t.market_slug@ + ","@ + side_upper(t.outcome) + ","@ + fixed_text(t.shares as int, 6, 4)
        + ","@ + fixed_text(t.usdc_spent as int, 6, 4) + ","@ + fixed_text(t.fill_price as int, 6, 6) + ","@
        + t.order_id@ + ","@ + bool_text(t.is_live)
}

/// Writes a line of the trade log (see `trade_log_text`).
pub fn trade_log_line(t: &BotTrade) -> (res: String)
    ensures
        res@ == trade_log_text(*t),
{
    let mut out = utc_text_or_exec(t.ts, "%Y-%m-%dT%H:%M:%S", "");
    append(&mut out, ",");
    append(&mut out, t.market_slug.as_str());
    append(&mut out, ",");
    append(&mut out, side_upper_text(t.outcome));
    append(&mut out, ",");
    let a = fixed_u64(t.shares, 6, 4);
    append(&mut out, a.as_str());
    append(&mut out, ",");
    let b = fixed_u64(t.usdc_spent, 6, 4);
    append(&mut out, b.as_str());
    append(&mut out, ",");
    let c = fixed_u64(t.fill_price, 6, 6);
    append(&mut out, c.as_str());
    append(&mut out, ",");
    append(&mut out, t.order_id.as_str());
    append(&mut out, ",");
    append(&mut out, bool_str(t.is_live));
    out
}

/// The header line of the PnL summary.
pub fn pnl_log_header() -> (res: String)
    ensures
        res@ == "slug,beat_price,end_price,winner,our_outcome,shares,usdc_spent,fill_price,pnl,resolved,executed_at,order_id"@,
{
    let mut out = String::new();
    append(&mut out, "slug,beat_price,end_price,winner,our_outcome,shares,usdc_spent,fill_price,pnl,resolved,executed_at,order_id");
    out
}

/// A line of the PnL summary: market, beat and end prices to 2 places,
/// winner (empty when unknown), our side, shares and USDC to 4 places, fill
/// price to 6, PnL to 4, whether resolved, time, order id.
pub open spec fn pnl_log_text(slug: Seq<char>, beat: u64, end: u64, winner: Option<Outcome>, t: BotTrade, pnl: int, resolved: bool) -> Seq<char> {
    slug + ","@ + fixed_text(beat as int, 8, 2) + ","@ + fixed_text(end as int, 8, 2) + ","@
        + (match winner { Some(w) => side_lower(w), None => ""@ }) + ","@ + side_lower(t.outcome) + ","@
        + fixed_text(t.shares as int, 6, 4) + ","@ + fixed_text(t.usdc_spent as int, 6, 4) + ","@
        + fixed_text(t.fill_price as int, 6, 6) + ","@ + fixed_text(pnl, 6, 4) + ","@ + bool_text(resolved) + ","@
        + log_time(t.ts) + ","@ + t.order_id@
}

/// Writes a line of the PnL summary (see `pnl_log_text`); the PnL is a
/// difference of two `u64` amounts.
pub fn pnl_log_line(slug: &str, beat: u64, end: u64, winner: Option<Outcome>, t: &BotTrade, pnl: i128, resolved: bool) -> (res: String)
    requires
        -0x1_0000_0000_0000_0000 <= pnl <= 0x1_0000_0000_0000_0000,
    ensures
        res@ == pnl_log_text(slug@, beat, end, winner, *t, pnl as int, resolved),
{
    let mut out = String::new();
    append(&mut out, slug);
    append(&mut out, ",");
    let a = fixed_u64(beat, 8, 2);
    append(&mut out, a.as_str());
    append(&mut out, ",");
    let b = fixed_u64(end, 8, 2);
    append(&mut out, b.as_str());
    append(&mut out, ",");
    match winner {
        Some(w) => append(&mut out, side_lower_text(w)),
        None => append(&mut out, ""),
    }
    append(&mut out, ",");
    append(&mut out, side_lower_text(t.outcome));
    append(&mut out, ",");
    let c = fixed_u64(t.shares, 6, 4);
    append(&mut out, c.as_str());
    append(&mut out, ",");
    let d = fixed_u64(t.usdc_spent, 6, 4);
    append(&mut out, d.as_str());
    append(&mut out, ",");
    let e = fixed_u64(t.fill_price, 6, 6);
    append(&mut out, e.as_str());
    append(&mut out, ",");
    let f = fixed_i(pnl, 6, 4);
    append(&mut out, f.as_str());
    append(&mut out, ",");
    append(&mut out, bool_str(resolved));
    append(&mut out, ",");
    let g = utc_text_or_exec(t.ts, "%Y-%m-%dT%H:%M:%S", "");
    append(&mut out, g.as_str());
    append(&mut out, ",");
    append(&mut out, t.order_id.as_str());
    proof {
        assert(out@ =~= pnl_log_text(slug@, beat, end, winner, *t, pnl as int, resolved));
    }
    out
}

/// No character of `s` is a comma.
pub open spec fn comma_free(s: Seq<char>) -> bool {
    forall|i: int| 0 <= i < s.len() ==> s[i] != ','
}

/// Where the first comma of `s` stands (its length when there is none).
pub open spec fn first_comma(s: Seq<char>) -> int
    decreases s.len(),
{
    if s.len() == 0 {
        0
    } else if s[0] == ',' {
        0
    } else {
        1 + first_comma(s.drop_first())
    }
}

/// Field `k` (from zero) of a comma-separated line; empty past the last.
pub open spec fn csv_field(s: Seq<char>, k: nat) -> Seq<char>
    decreases k,
{
    let c = first_comma(s);
    if k == 0 {
        s.take(c)
    } else if c < s.len() {
        csv_field(s.skip(c + 1), (k - 1) as nat)
    } else {
        Seq::empty()
    }
}

proof fn lemma_first_comma_range(s: Seq<char>)
    ensures
        0 <= first_comma(s) <= s.len(),
    decreases s.len(),
{
    if s.len() > 0 && s[0] != ',' {
        lemma_first_comma_range(s.drop_first());
    }
}

proof fn lemma_first_comma_after(a: Seq<char>, b: Seq<char>)
    requires
        comma_free(a),
    ensures
        first_comma(a + seq![','] + b) == a.len(),
    decreases a.len(),
{
    let s = a + seq![','] + b;
    if a.len() > 0 {
        assert(s[0] == a[0]);
        assert(s.drop_first() =~= a.drop_first() + seq![','] + b);
        lemma_first_comma_after(a.drop_first(), b);
    } else {
        assert(s[0] == ',');
    }
}

/// A line made of a comma-free field, a comma and the rest: field 0 is that
/// field, and the later fields are those of the rest.
proof fn lemma_field_split(a: Seq<char>, b: Seq<char>, k: nat)
    requires
        comma_free(a),
    ensures
        csv_field(a + seq![','] + b, 0) == a,
        csv_field(a + seq![','] + b, k + 1) == csv_field(b, k),
{
    let s = a + seq![','] + b;
    lemma_first_comma_after(a, b);
    assert(s.take(a.len() as int) =~= a);
    assert(s.skip(a.len() as int + 1) =~= b);
}

proof fn lemma_digits_comma_free(n: nat)
    ensures
        comma_free(dec_digits(n)),
    decreases n,
{
    if n >= 10 {
        lemma_digits_comma_free(n / 10);
    }
}

proof fn lemma_fixed_comma_free(v: int, scale: nat, places: nat)
    ensures
        comma_free(fixed_text(v, scale, places)),
{
    let q = rounded((if v < 0 { -v } else { v }) as nat, pow10(scale), places);
    lemma_digits_comma_free(q / pow10(places));
    lemma_digits_comma_free(q % pow10(places));
    reveal_strlit(",");
    let d = dec_digits(q % pow10(places));
    let z = zero_padded(d, places);
    assert(comma_free(z));
    assert(comma_free(fixed_places(q, places)));
}

proof fn lemma_side_comma_free(o: Outcome)
    ensures
        comma_free(side_lower(o)),
{
    reveal_strlit("up");
    reveal_strlit("down");
}

proof fn lemma_regroup(
    a0: Seq<char>, a1: Seq<char>, a2: Seq<char>, a3: Seq<char>, a4: Seq<char>, a5: Seq<char>,
    a6: Seq<char>, a7: Seq<char>, a8: Seq<char>, a9: Seq<char>, a10: Seq<char>, a11: Seq<char>, c: Seq<char>,
)
    requires
        c == seq![','],
    ensures
        a0 + c + a1 + c + a2 + c + a3 + c + a4 + c + a5 + c + a6 + c + a7 + c + a8 + c + a9 + c + a10 + c + a11
            == a0 + seq![','] + (a1 + seq![','] + (a2 + seq![','] + (a3 + seq![','] + (a4 + seq![','] + (a5 + seq![',']
            + (a6 + seq![','] + (a7 + c + a8 + c + a9 + c + a10 + c + a11))))))),
{
    assert(a0 + c + a1 + c + a2 + c + a3 + c + a4 + c + a5 + c + a6 + c + a7 + c + a8 + c + a9 + c + a10 + c + a11
        =~= a0 + seq![','] + (a1 + seq![','] + (a2 + seq![','] + (a3 + seq![','] + (a4 + seq![','] + (a5 + seq![',']
        + (a6 + seq![','] + (a7 + c + a8 + c + a9 + c + a10 + c + a11))))))));
}

proof fn lemma_ten_fields(a0: Seq<char>, a1: Seq<char>, a2: Seq<char>, a3: Seq<char>, a4: Seq<char>, a5: Seq<char>, a6: Seq<char>, a7: Seq<char>, a8: Seq<char>, a9: Seq<char>, tail: Seq<char>)
    requires
        comma_free(a0),
        comma_free(a1),
        comma_free(a2),
        comma_free(a3),
        comma_free(a4),
        comma_free(a5),
        comma_free(a6),
        comma_free(a7),
        comma_free(a8),
        comma_free(a9),
    ensures
        csv_field((a0 + seq![','] + (a1 + seq![','] + (a2 + seq![','] + (a3 + seq![','] + (a4 + seq![','] + (a5 + seq![','] + (a6 + seq![','] + (a7 + seq![','] + (a8 + seq![','] + (a9 + seq![','] + tail)))))))))), 0) == a0,
        csv_field((a0 + seq![','] + (a1 + seq![','] + (a2 + seq![','] + (a3 + seq![','] + (a4 + seq![','] + (a5 + seq![','] + (a6 + seq![','] + (a7 + seq![','] + (a8 + seq![','] + (a9 + seq![','] + tail)))))))))), 1) == a1,
        csv_field((a0 + seq![','] + (a1 + seq![','] + (a2 + seq![','] + (a3 + seq![','] + (a4 + seq![','] + (a5 + seq![','] + (a6 + seq![','] + (a7 + seq![','] + (a8 + seq![','] + (a9 + seq![','] + tail)))))))))), 2) == a2,
        csv_field((a0 + seq![','] + (a1 + seq![','] + (a2 + seq![','] + (a3 + seq![','] + (a4 + seq![','] + (a5 + seq![','] + (a6 + seq![','] + (a7 + seq![','] + (a8 + seq![','] + (a9 + seq![','] + tail)))))))))), 3) == a3,
        csv_field((a0 + seq![','] + (a1 + seq![','] + (a2 + seq![','] + (a3 + seq![','] + (a4 + seq![','] + (a5 + seq![','] + (a6 + seq![','] + (a7 + seq![','] + (a8 + seq![','] + (a9 + seq![','] + tail)))))))))), 4) == a4,
        csv_field((a0 + seq![','] + (a1 + seq![','] + (a2 + seq![','] + (a3 + seq![','] + (a4 + seq![','] + (a5 + seq![','] + (a6 + seq![','] + (a7 + seq![','] + (a8 + seq![','] + (a9 + seq![','] + tail)))))))))), 5) == a5,
        csv_field((a0 + seq![','] + (a1 + seq![','] + (a2 + seq![','] + (a3 + seq![','] + (a4 + seq![','] + (a5 + seq![','] + (a6 + seq![','] + (a7 + seq![','] + (a8 + seq![','] + (a9 + seq![','] + tail)))))))))), 6) == a6,
        csv_field((a0 + seq![','] + (a1 + seq![','] + (a2 + seq![','] + (a3 + seq![','] + (a4 + seq![','] + (a5 + seq![','] + (a6 + seq![','] + (a7 + seq![','] + (a8 + seq![','] + (a9 + seq![','] + tail)))))))))), 7) == a7,
        csv_field((a0 + seq![','] + (a1 + seq![','] + (a2 + seq![','] + (a3 + seq![','] + (a4 + seq![','] + (a5 + seq![','] + (a6 + seq![','] + (a7 + seq![','] + (a8 + seq![','] + (a9 + seq![','] + tail)))))))))), 8) == a8,
        csv_field((a0 + seq![','] + (a1 + seq![','] + (a2 + seq![','] + (a3 + seq![','] + (a4 + seq![','] + (a5 + seq![','] + (a6 + seq![','] + (a7 + seq![','] + (a8 + seq![','] + (a9 + seq![','] + tail)))))))))), 9) == a9,
{
    lemma_field_split(a0, (a1 + seq![','] + (a2 + seq![','] + (a3 + seq![','] + (a4 + seq![','] + (a5 + seq![','] + (a6 + seq![','] + (a7 + seq![','] + (a8 + seq![','] + (a9 + seq![','] + tail))))))))), 0);
    lemma_field_split(a1, (a2 + seq![','] + (a3 + seq![','] + (a4 + seq![','] + (a5 + seq![','] + (a6 + seq![','] + (a7 + seq![','] + (a8 + seq![','] + (a9 + seq![','] + tail)))))))), 0);
    lemma_field_split(a0, (a1 + seq![','] + (a2 + seq![','] + (a3 + seq![','] + (a4 + seq![','] + (a5 + seq![','] + (a6 + seq![','] + (a7 + seq![','] + (a8 + seq![','] + (a9 + seq![','] + tail))))))))), 1);
    lemma_field_split(a2, (a3 + seq![','] + (a4 + seq![','] + (a5 + seq![','] + (a6 + seq![','] + (a7 + seq![','] + (a8 + seq![','] + (a9 + seq![','] + tail))))))), 0);
    lemma_field_split(a0, (a1 + seq![','] + (a2 + seq![','] + (a3 + seq![','] + (a4 + seq![','] + (a5 + seq![','] + (a6 + seq![','] + (a7 + seq![','] + (a8 + seq![','] + (a9 + seq![','] + tail))))))))), 2);
    lemma_field_split(a1, (a2 + seq![','] + (a3 + seq![','] + (a4 + seq![','] + (a5 + seq![','] + (a6 + seq![','] + (a7 + seq![','] + (a8 + seq![','] + (a9 + seq![','] + tail)))))))), 1);
    lemma_field_split(a3, (a4 + seq![','] + (a5 + seq![','] + (a6 + seq![','] + (a7 + seq![','] + (a8 + seq![','] + (a9 + seq![','] + tail)))))), 0);
    lemma_field_split(a0, (a1 + seq![','] + (a2 + seq![','] + (a3 + seq![','] + (a4 + seq![','] + (a5 + seq![','] + (a6 + seq![','] + (a7 + seq![','] + (a8 + seq![','] + (a9 + seq![','] + tail))))))))), 3);
    lemma_field_split(a1, (a2 + seq![','] + (a3 + seq![','] + (a4 + seq![','] + (a5 + seq![','] + (a6 + seq![','] + (a7 + seq![','] + (a8 + seq![','] + (a9 + seq![','] + tail)))))))), 2);
    lemma_field_split(a2, (a3 + seq![','] + (a4 + seq![','] + (a5 + seq![','] + (a6 + seq![','] + (a7 + seq![','] + (a8 + seq![','] + (a9 + seq![','] + tail))))))), 1);
    lemma_field_split(a4, (a5 + seq![','] + (a6 + seq![','] + (a7 + seq![','] + (a8 + seq![','] + (a9 + seq![','] + tail))))), 0);
    lemma_field_split(a0, (a1 + seq![','] + (a2 + seq![','] + (a3 + seq![','] + (a4 + seq![','] + (a5 + seq![','] + (a6 + seq![','] + (a7 + seq![','] + (a8 + seq![','] + (a9 + seq![','] + tail))))))))), 4);
    lemma_field_split(a1, (a2 + seq![','] + (a3 + seq![','] + (a4 + seq![','] + (a5 + seq![','] + (a6 + seq![','] + (a7 + seq![','] + (a8 + seq![','] + (a9 + seq![','] + tail)))))))), 3);
    lemma_field_split(a2, (a3 + seq![','] + (a4 + seq![','] + (a5 + seq![','] + (a6 + seq![','] + (a7 + seq![','] + (a8 + seq![','] + (a9 + seq![','] + tail))))))), 2);
    lemma_field_split(a3, (a4 + seq![','] + (a5 + seq![','] + (a6 + seq![','] + (a7 + seq![','] + (a8 + seq![','] + (a9 + seq![','] + tail)))))), 1);
    lemma_field_split(a5, (a6 + seq![','] + (a7 + seq![','] + (a8 + seq![','] + (a9 + seq![','] + tail)))), 0);
    lemma_field_split(a0, (a1 + seq![','] + (a2 + seq![','] + (a3 + seq![','] + (a4 + seq![','] + (a5 + seq![','] + (a6 + seq![','] + (a7 + seq![','] + (a8 + seq![','] + (a9 + seq![','] + tail))))))))), 5);
    lemma_field_split(a1, (a2 + seq![','] + (a3 + seq![','] + (a4 + seq![','] + (a5 + seq![','] + (a6 + seq![','] + (a7 + seq![','] + (a8 + seq![','] + (a9 + seq![','] + tail)))))))), 4);
    lemma_field_split(a2, (a3 + seq![','] + (a4 + seq![','] + (a5 + seq![','] + (a6 + seq![','] + (a7 + seq![','] + (a8 + seq![','] + (a9 + seq![','] + tail))))))), 3);
    lemma_field_split(a3, (a4 + seq![','] + (a5 + seq![','] + (a6 + seq![','] + (a7 + seq![','] + (a8 + seq![','] + (a9 + seq![','] + tail)))))), 2);
    lemma_field_split(a4, (a5 + seq![','] + (a6 + seq![','] + (a7 + seq![','] + (a8 + seq![','] + (a9 + seq![','] + tail))))), 1);
    lemma_field_split(a6, (a7 + seq![','] + (a8 + seq![','] + (a9 + seq![','] + tail))), 0);
    lemma_field_split(a0, (a1 + seq![','] + (a2 + seq![','] + (a3 + seq![','] + (a4 + seq![','] + (a5 + seq![','] + (a6 + seq![','] + (a7 + seq![','] + (a8 + seq![','] + (a9 + seq![','] + tail))))))))), 6);
    lemma_field_split(a1, (a2 + seq![','] + (a3 + seq![','] + (a4 + seq![','] + (a5 + seq![','] + (a6 + seq![','] + (a7 + seq![','] + (a8 + seq![','] + (a9 + seq![','] + tail)))))))), 5);
    lemma_field_split(a2, (a3 + seq![','] + (a4 + seq![','] + (a5 + seq![','] + (a6 + seq![','] + (a7 + seq![','] + (a8 + seq![','] + (a9 + seq![','] + tail))))))), 4);
    lemma_field_split(a3, (a4 + seq![','] + (a5 + seq![','] + (a6 + seq![','] + (a7 + seq![','] + (a8 + seq![','] + (a9 + seq![','] + tail)))))), 3);
    lemma_field_split(a4, (a5 + seq![','] + (a6 + seq![','] + (a7 + seq![','] + (a8 + seq![','] + (a9 + seq![','] + tail))))), 2);
    lemma_field_split(a5, (a6 + seq![','] + (a7 + seq![','] + (a8 + seq![','] + (a9 + seq![','] + tail)))), 1);
    lemma_field_split(a7, (a8 + seq![','] + (a9 + seq![','] + tail)), 0);
    lemma_field_split(a0, (a1 + seq![','] + (a2 + seq![','] + (a3 + seq![','] + (a4 + seq![','] + (a5 + seq![','] + (a6 + seq![','] + (a7 + seq![','] + (a8 + seq![','] + (a9 + seq![','] + tail))))))))), 7);
    lemma_field_split(a1, (a2 + seq![','] + (a3 + seq![','] + (a4 + seq![','] + (a5 + seq![','] + (a6 + seq![','] + (a7 + seq![','] + (a8 + seq![','] + (a9 + seq![','] + tail)))))))), 6);
    lemma_field_split(a2, (a3 + seq![','] + (a4 + seq![','] + (a5 + seq![','] + (a6 + seq![','] + (a7 + seq![','] + (a8 + seq![','] + (a9 + seq![','] + tail))))))), 5);
    lemma_field_split(a3, (a4 + seq![','] + (a5 + seq![','] + (a6 + seq![','] + (a7 + seq![','] + (a8 + seq![','] + (a9 + seq![','] + tail)))))), 4);
    lemma_field_split(a4, (a5 + seq![','] + (a6 + seq![','] + (a7 + seq![','] + (a8 + seq![','] + (a9 + seq![','] + tail))))), 3);
    lemma_field_split(a5, (a6 + seq![','] + (a7 + seq![','] + (a8 + seq![','] + (a9 + seq![','] + tail)))), 2);
    lemma_field_split(a6, (a7 + seq![','] + (a8 + seq![','] + (a9 + seq![','] + tail))), 1);
    lemma_field_split(a8, (a9 + seq![','] + tail), 0);
    lemma_field_split(a0, (a1 + seq![','] + (a2 + seq![','] + (a3 + seq![','] + (a4 + seq![','] + (a5 + seq![','] + (a6 + seq![','] + (a7 + seq![','] + (a8 + seq![','] + (a9 + seq![','] + tail))))))))), 8);
    lemma_field_split(a1, (a2 + seq![','] + (a3 + seq![','] + (a4 + seq![','] + (a5 + seq![','] + (a6 + seq![','] + (a7 + seq![','] + (a8 + seq![','] + (a9 + seq![','] + tail)))))))), 7);
    lemma_field_split(a2, (a3 + seq![','] + (a4 + seq![','] + (a5 + seq![','] + (a6 + seq![','] + (a7 + seq![','] + (a8 + seq![','] + (a9 + seq![','] + tail))))))), 6);
    lemma_field_split(a3, (a4 + seq![','] + (a5 + seq![','] + (a6 + seq![','] + (a7 + seq![','] + (a8 + seq![','] + (a9 + seq![','] + tail)))))), 5);
    lemma_field_split(a4, (a5 + seq![','] + (a6 + seq![','] + (a7 + seq![','] + (a8 + seq![','] + (a9 + seq![','] + tail))))), 4);
    lemma_field_split(a5, (a6 + seq![','] + (a7 + seq![','] + (a8 + seq![','] + (a9 + seq![','] + tail)))), 3);
    lemma_field_split(a6, (a7 + seq![','] + (a8 + seq![','] + (a9 + seq![','] + tail))), 2);
    lemma_field_split(a7, (a8 + seq![','] + (a9 + seq![','] + tail)), 1);
    lemma_field_split(a9, tail, 0);
}

/// In a PnL log line (of a market whose slug holds no comma), the fields are
/// in order the market, the beat price, the end price, the winner (empty
/// when unknown), the side the trade bought, whatever the winner, and then
/// the shares, the USDC spent, the fill price, the trade's PnL (to 4
/// places, negative for a loss) and whether the winner was confirmed.
pub proof fn pnl_log_fields(slug: Seq<char>, beat: u64, end: u64, winner: Option<Outcome>, t: BotTrade, pnl: int, resolved: bool)
    requires
        comma_free(slug),
    ensures
        ({
            let line = pnl_log_text(slug, beat, end, winner, t, pnl, resolved);
            &&& csv_field(line, 0) == slug
            &&& csv_field(line, 1) == fixed_text(beat as int, 8, 2)
            &&& csv_field(line, 2) == fixed_text(end as int, 8, 2)
            &&& csv_field(line, 3) == (match winner {
                Some(w) => side_lower(w),
                None => ""@,
            })
            &&& csv_field(line, 4) == side_lower(t.outcome)
            &&& csv_field(line, 5) == fixed_text(t.shares as int, 6, 4)
            &&& csv_field(line, 6) == fixed_text(t.usdc_spent as int, 6, 4)
            &&& csv_field(line, 7) == fixed_text(t.fill_price as int, 6, 6)
            &&& csv_field(line, 8) == fixed_text(pnl, 6, 4)
            &&& csv_field(line, 9) == bool_text(resolved)
        }),
{
    reveal_strlit(",");
    reveal_strlit("");
    assert(","@ =~= seq![',']);
    let f1 = fixed_text(beat as int, 8, 2);
    let f2 = fixed_text(end as int, 8, 2);
    let w = match winner {
        Some(w) => side_lower(w),
        None => ""@,
    };
    let o = side_lower(t.outcome);
    let f5 = fixed_text(t.shares as int, 6, 4);
    let f6 = fixed_text(t.usdc_spent as int, 6, 4);
    let rest = fixed_text(t.fill_price as int, 6, 6) + ","@ + fixed_text(pnl, 6, 4) + ","@ + bool_text(resolved) + ","@
        + log_time(t.ts) + ","@ + t.order_id@;
    let x6 = f6 + seq![','] + rest;
    let x5 = f5 + seq![','] + x6;
    let x4 = o + seq![','] + x5;
    let x3 = w + seq![','] + x4;
    let x2 = f2 + seq![','] + x3;
    let x1 = f1 + seq![','] + x2;
    let line = pnl_log_text(slug, beat, end, winner, t, pnl, resolved);
    lemma_regroup(slug, f1, f2, w, o, f5, f6, fixed_text(t.fill_price as int, 6, 6), fixed_text(pnl, 6, 4),
        bool_text(resolved), log_time(t.ts), t.order_id@, ","@);
    assert(line == slug + seq![','] + x1);
    lemma_fixed_comma_free(beat as int, 8, 2);
    lemma_fixed_comma_free(end as int, 8, 2);
    lemma_fixed_comma_free(t.shares as int, 6, 4);
    lemma_fixed_comma_free(t.usdc_spent as int, 6, 4);
    lemma_side_comma_free(t.outcome);
    match winner {
        Some(v) => lemma_side_comma_free(v),
        None => {},
    }
    let f7 = fixed_text(t.fill_price as int, 6, 6);
    let f8 = fixed_text(pnl, 6, 4);
    let f9 = bool_text(resolved);
    let x9 = log_time(t.ts) + ","@ + t.order_id@;
    let x8 = f9 + seq![','] + x9;
    let x7 = f8 + seq![','] + x8;
    assert(rest =~= f7 + seq![','] + x7);
    lemma_fixed_comma_free(t.fill_price as int, 6, 6);
    lemma_fixed_comma_free(pnl, 6, 4);
    reveal_strlit("true");
    reveal_strlit("false");
    assert(comma_free(f9));
    lemma_ten_fields(slug, f1, f2, w, o, f5, f6, f7, f8, f9, x9);
    assert(csv_field(line, 4) == o);
}

proof fn lemma_regroup8(
    a0: Seq<char>, a1: Seq<char>, a2: Seq<char>, a3: Seq<char>, a4: Seq<char>, a5: Seq<char>, a6: Seq<char>, a7: Seq<char>,
    c: Seq<char>,
)
    requires
        c == seq![','],
    ensures
        a0 + c + a1 + c + a2 + c + a3 + c + a4 + c + a5 + c + a6 + c + a7 == a0 + seq![','] + (a1 + seq![','] + (a2 + seq![',']
            + (a3 + seq![','] + (a4 + seq![','] + (a5 + seq![','] + (a6 + c + a7)))))),
{
    assert(a0 + c + a1 + c + a2 + c + a3 + c + a4 + c + a5 + c + a6 + c + a7 =~= a0 + seq![','] + (a1 + seq![','] + (a2
        + seq![','] + (a3 + seq![','] + (a4 + seq![','] + (a5 + seq![','] + (a6 + c + a7)))))));
}

proof fn lemma_six_fields(a0: Seq<char>, a1: Seq<char>, a2: Seq<char>, a3: Seq<char>, a4: Seq<char>, a5: Seq<char>, tail: Seq<char>)
    requires
        comma_free(a0),
        comma_free(a1),
        comma_free(a2),
        comma_free(a3),
        comma_free(a4),
        comma_free(a5),
    ensures
        csv_field((a0 + seq![','] + (a1 + seq![','] + (a2 + seq![','] + (a3 + seq![','] + (a4 + seq![','] + (a5 + seq![','] + tail)))))), 0) == a0,
        csv_field((a0 + seq![','] + (a1 + seq![','] + (a2 + seq![','] + (a3 + seq![','] + (a4 + seq![','] + (a5 + seq![','] + tail)))))), 1) == a1,
        csv_field((a0 + seq![','] + (a1 + seq![','] + (a2 + seq![','] + (a3 + seq![','] + (a4 + seq![','] + (a5 + seq![','] + tail)))))), 2) == a2,
        csv_field((a0 + seq![','] + (a1 + seq![','] + (a2 + seq![','] + (a3 + seq![','] + (a4 + seq![','] + (a5 + seq![','] + tail)))))), 3) == a3,
        csv_field((a0 + seq![','] + (a1 + seq![','] + (a2 + seq![','] + (a3 + seq![','] + (a4 + seq![','] + (a5 + seq![','] + tail)))))), 4) == a4,
        csv_field((a0 + seq![','] + (a1 + seq![','] + (a2 + seq![','] + (a3 + seq![','] + (a4 + seq![','] + (a5 + seq![','] + tail)))))), 5) == a5,
{
    lemma_field_split(a0, (a1 + seq![','] + (a2 + seq![','] + (a3 + seq![','] + (a4 + seq![','] + (a5 + seq![','] + tail))))), 0);
    lemma_field_split(a1, (a2 + seq![','] + (a3 + seq![','] + (a4 + seq![','] + (a5 + seq![','] + tail)))), 0);
    lemma_field_split(a0, (a1 + seq![','] + (a2 + seq![','] + (a3 + seq![','] + (a4 + seq![','] + (a5 + seq![','] + tail))))), 1);
    lemma_field_split(a2, (a3 + seq![','] + (a4 + seq![','] + (a5 + seq![','] + tail))), 0);
    lemma_field_split(a0, (a1 + seq![','] + (a2 + seq![','] + (a3 + seq![','] + (a4 + seq![','] + (a5 + seq![','] + tail))))), 2);
    lemma_field_split(a1, (a2 + seq![','] + (a3 + seq![','] + (a4 + seq![','] + (a5 + seq![','] + tail)))), 1);
    lemma_field_split(a3, (a4 + seq![','] + (a5 + seq![','] + tail)), 0);
    lemma_field_split(a0, (a1 + seq![','] + (a2 + seq![','] + (a3 + seq![','] + (a4 + seq![','] + (a5 + seq![','] + tail))))), 3);
    lemma_field_split(a1, (a2 + seq![','] + (a3 + seq![','] + (a4 + seq![','] + (a5 + seq![','] + tail)))), 2);
    lemma_field_split(a2, (a3 + seq![','] + (a4 + seq![','] + (a5 + seq![','] + tail))), 1);
    lemma_field_split(a4, (a5 + seq![','] + tail), 0);
    lemma_field_split(a0, (a1 + seq![','] + (a2 + seq![','] + (a3 + seq![','] + (a4 + seq![','] + (a5 + seq![','] + tail))))), 4);
    lemma_field_split(a1, (a2 + seq![','] + (a3 + seq![','] + (a4 + seq![','] + (a5 + seq![','] + tail)))), 3);
    lemma_field_split(a2, (a3 + seq![','] + (a4 + seq![','] + (a5 + seq![','] + tail))), 2);
    lemma_field_split(a3, (a4 + seq![','] + (a5 + seq![','] + tail)), 1);
    lemma_field_split(a5, tail, 0);
}

/// In a trade log line (of a market whose slug holds no comma, at a time
/// written without one), the fields are in order the time, the market, the
/// side bought (upper case), the shares, the USDC spent and the fill price.
pub proof fn trade_log_fields(t: BotTrade)
    requires
        comma_free(t.market_slug@),
        comma_free(log_time(t.ts)),
    ensures
        ({
            let line = trade_log_text(t);
            &&& csv_field(line, 0) == log_time(t.ts)
            &&& csv_field(line, 1) == t.market_slug@
            &&& csv_field(line, 2) == side_upper(t.outcome)
            &&& csv_field(line, 3) == fixed_text(t.shares as int, 6, 4)
            &&& csv_field(line, 4) == fixed_text(t.usdc_spent as int, 6, 4)
            &&& csv_field(line, 5) == fixed_text(t.fill_price as int, 6, 6)
        }),
{
    reveal_strlit(",");
    reveal_strlit("UP");
    reveal_strlit("DOWN");
    assert(","@ =~= seq![',']);
    let time = log_time(t.ts);
    let slug = t.market_slug@;
    let side = side_upper(t.outcome);
    let f3 = fixed_text(t.shares as int, 6, 4);
    let f4 = fixed_text(t.usdc_spent as int, 6, 4);
    let f5 = fixed_text(t.fill_price as int, 6, 6);
    let y6 = t.order_id@ + ","@ + bool_text(t.is_live);
    let y5 = f5 + seq![','] + y6;
    let y4 = f4 + seq![','] + y5;
    let y3 = f3 + seq![','] + y4;
    let y2 = side + seq![','] + y3;
    let y1 = slug + seq![','] + y2;
    lemma_regroup8(time, slug, side, f3, f4, f5, t.order_id@, bool_text(t.is_live), ","@);
    assert(trade_log_text(t) == time + seq![','] + y1);
    lemma_fixed_comma_free(t.shares as int, 6, 4);
    lemma_fixed_comma_free(t.usdc_spent as int, 6, 4);
    lemma_fixed_comma_free(t.fill_price as int, 6, 6);
    assert(comma_free(side));
    lemma_six_fields(time, slug, side, f3, f4, f5, y6);
}

} // verus!
