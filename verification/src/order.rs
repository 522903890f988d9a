//! Order sizing for fill-or-kill limit orders, and the paper executor.
use vstd::prelude::*;
use crate::types::{BuyParams, ExecResult};
use crate::chainlink::hex_text;
use crate::text::{dec_digits, push_char, push_chars, str_chars, u64_to_decimal};

verus! {

/// Millionths per unit (USDC, shares and share prices are held in millionths).
pub const MICROS: u64 = 1_000_000;

pub open spec fn gcd_spec(a: nat, b: nat) -> nat
    decreases b,
{
    if b == 0 {
        a
    } else {
        gcd_spec(b, a % b)
    }
}

/// Greatest common divisor (Euclid).
pub fn gcd(a: u64, b: u64) -> (res: u64)
    ensures
        res == gcd_spec(a as nat, b as nat),
    decreases b,
{
    if b == 0 {
        a
    } else {
        gcd(b, a % b)
    }
}

proof fn lemma_divides_sum(g: int, x: int, q: int, r: int)
    requires
        g > 0,
        x % g == 0,
        r % g == 0,
    ensures
        (q * x + r) % g == 0,
{
    let xk = x / g;
    let rk = r / g;
    assert(x == g * xk) by (nonlinear_arith)
        requires g > 0, x % g == 0, xk == x / g;
    assert(r == g * rk) by (nonlinear_arith)
        requires g > 0, r % g == 0, rk == r / g;
    assert(q * x + r == g * (q * xk + rk)) by (nonlinear_arith)
        requires x == g * xk, r == g * rk;
    assert((g * (q * xk + rk)) % g == 0) by (nonlinear_arith)
        requires g > 0;
}

/// The greatest common divisor divides both numbers.
pub proof fn lemma_gcd_divides(a: nat, b: nat)
    requires
        a > 0 || b > 0,
    ensures
        gcd_spec(a, b) > 0,
        a % gcd_spec(a, b) == 0,
        b % gcd_spec(a, b) == 0,
    decreases b,
{
    if b > 0 {
        let r = a % b;
        lemma_gcd_divides(b, r);
        let g = gcd_spec(b, r);
        assert(a == (a / b) * b + r) by (nonlinear_arith)
            requires b > 0, r == a % b;
        lemma_divides_sum(g as int, b as int, (a / b) as int, r as int);
    }
}

/// A fill-or-kill limit order: size in hundredths of a share and price in
/// cents.
#[derive(Clone, Copy, Debug, PartialEq, Eq, Structural)]
pub struct FokOrder {
    pub size_cents: u64,
    pub price_cents: u64,
}

/// Why an order is not placed.
#[derive(Clone, Copy, Debug, PartialEq, Eq, Structural)]
pub enum OrderRejection {
    /// Fewer than 0.01 shares.
    SharesTooSmall,
    /// Fewer than 0.01 shares once aligned to whole-cent cost.
    SharesTooSmallAfterAlignment { price_cents: u64 },
    /// The order would cost less than $1.00 (value in ten-thousandths of USDC).
    BelowMinimum { value: u64 },
}

/// The limit price in cents: the ask plus the slippage buffer, held to
/// [0.01, 0.99] and rounded to the nearest cent (halves up).
pub open spec fn limit_price_cents(ask: int, buffer: int) -> int {
    let raw = ask + buffer;
    let clamped = if raw < 10_000 { 10_000 } else if raw > 990_000 { 990_000 } else { raw };
    (clamped + 5_000) / 10_000
}

/// Share counts must make `size * price` a whole number of cents; sizes move
/// in steps of this many hundredths.
pub open spec fn size_step(price_cents: nat) -> nat {
    100nat / gcd_spec(price_cents, 100)
}

/// What `plan_fok_order` decides for `shares` and `ask` (millionths) and a
/// signed slippage `buffer` (millionths).
pub open spec fn fok_plan(shares: nat, ask: int, buffer: int) -> Result<FokOrder, OrderRejection> {
    let raw_cents = shares / 10_000;
    let p = limit_price_cents(ask, buffer);
    let step = size_step(p as nat);
    let adj = (raw_cents / step) * step;
    if raw_cents == 0 {
        Err(OrderRejection::SharesTooSmall)
    } else if adj == 0 {
        Err(OrderRejection::SharesTooSmallAfterAlignment { price_cents: p as u64 })
    } else if adj * p < 10_000 {
        Err(OrderRejection::BelowMinimum { value: (adj * p) as u64 })
    } else {
        Ok(FokOrder { size_cents: adj as u64, price_cents: p as u64 })
    }
}

proof fn lemma_limit_price_range(ask: int, buffer: int)
    ensures
        1 <= limit_price_cents(ask, buffer) <= 99,
{
    let raw = ask + buffer;
    let clamped = if raw < 10_000 { 10_000 } else if raw > 990_000 { 990_000 } else { raw };
    assert(15_000 <= clamped + 5_000 <= 995_000);
    assert(1 <= (clamped + 5_000) / 10_000 <= 99);
}

proof fn lemma_step_range(p: nat)
    requires
        1 <= p <= 99,
    ensures
        1 <= size_step(p) <= 100,
        size_step(p) * gcd_spec(p, 100) == 100,
        p % gcd_spec(p, 100) == 0,
{
    lemma_gcd_divides(p, 100);
    let g = gcd_spec(p, 100);
    assert(g <= 100) by (nonlinear_arith)
        requires g > 0, 100nat % g == 0;
    assert((100nat / g) * g == 100) by (nonlinear_arith)
        requires g > 0, 100nat % g == 0;
    assert(1 <= 100nat / g <= 100) by (nonlinear_arith)
        requires 0 < g <= 100;
}

/// Scaling both numbers scales their greatest common divisor.
proof fn lemma_gcd_scale(r: nat, a: nat, b: nat)
    requires
        r > 0,
    ensures
        gcd_spec(r * a, r * b) == r * gcd_spec(a, b),
    decreases b,
{
    if b == 0 {
        assert(r * b == 0) by (nonlinear_arith)
            requires b == 0;
    } else {
        let q = a / b;
        let m = a % b;
        assert(a == q * b + m) by (nonlinear_arith)
            requires b > 0, q == a / b, m == a % b;
        assert(r * a == q * (r * b) + r * m && 0 <= r * m < r * b) by (nonlinear_arith)
            requires r > 0, b > 0, q == a / b, m == a % b, a == q * b + m, 0 <= m < b;
        vstd::arithmetic::div_mod::lemma_fundamental_div_mod_converse((r * a) as int, (r * b) as int, q as int, (r * m) as int);
        assert(r * b > 0) by (nonlinear_arith)
            requires r > 0, b > 0;
        assert((r * a) % (r * b) == r * m);
        lemma_gcd_scale(r, b, m);
    }
}

/// A common divisor of two numbers divides their greatest common divisor.
proof fn lemma_common_divisor(d: nat, a: nat, b: nat)
    requires
        d > 0,
        a % d == 0,
        b % d == 0,
    ensures
        gcd_spec(a, b) % d == 0,
    decreases b,
{
    if b > 0 {
        let q = a / b;
        let m = a % b;
        assert(a == q * b + m) by (nonlinear_arith)
            requires b > 0, q == a / b, m == a % b;
        lemma_divides_sum(d as int, b as int, -q, a as int);
        assert((-q) * b + a == m) by (nonlinear_arith)
            requires a == q * b + m;
        lemma_common_divisor(d, b, m);
    }
}

/// A size whose cost at `p` cents is a whole number of cents is a multiple
/// of the size step.
proof fn lemma_whole_cent_sizes_are_steps(s: nat, p: nat)
    requires
        1 <= p <= 99,
        (s * p) % 100 == 0,
    ensures
        s % size_step(p) == 0,
{
    lemma_step_range(p);
    let g = gcd_spec(p, 100);
    let step = size_step(p);
    let a = p / g;
    assert(p == g * a) by (nonlinear_arith)
        requires g > 0, p % g == 0, a == p / g;
    assert(g * step == 100) by (nonlinear_arith)
        requires step * g == 100;
    lemma_gcd_scale(g, a, step);
    assert(gcd_spec(a, step) == 1) by (nonlinear_arith)
        requires g > 0, g * gcd_spec(a, step) == g;
    if s > 0 {
        let m = (s * p) / 100;
        assert(s * a == step * m) by (nonlinear_arith)
            requires (s * p) % 100 == 0, m == (s * p) / 100, p == g * a, g * step == 100, g > 0;
        assert((s * a) % step == 0) by (nonlinear_arith)
            requires s * a == step * m, step > 0;
        assert((s * step) % step == 0) by (nonlinear_arith)
            requires step > 0;
        lemma_common_divisor(step, s * a, s * step);
        lemma_gcd_scale(s, a, step);
        assert(s * gcd_spec(a, step) == s) by (nonlinear_arith)
            requires gcd_spec(a, step) == 1;
        assert(gcd_spec(s * a, s * step) == s);
    } else {
        assert(s % step == 0) by (nonlinear_arith)
            requires s == 0, step > 0;
    }
}

/// Sizes a fill-or-kill buy: shares are rounded down to hundredths, the
/// limit price to cents (see `limit_price_cents`), the size is aligned down
/// so the cost is a whole number of cents, and orders under 0.01 shares or
/// under $1.00 are refused.
pub fn plan_fok_order(shares: u64, ask: u64, buffer: i64) -> (res: Result<FokOrder, OrderRejection>)
    ensures
        res == fok_plan(shares as nat, ask as int, buffer as int),
        res matches Ok(o) ==> o.size_cents <= u64::MAX / 10_000 && 1 <= o.price_cents <= 99,
{
    let raw_cents: u64 = shares / 10_000;
    let raw: i128 = ask as i128 + buffer as i128;
    let clamped: i128 = if raw < 10_000 { 10_000 } else if raw > 990_000 { 990_000 } else { raw };
    let price_cents: u64 = ((clamped + 5_000) / 10_000) as u64;
    proof {
        lemma_limit_price_range(ask as int, buffer as int);
        lemma_step_range(price_cents as nat);
    }
    let g = gcd(price_cents, 100);
    let step: u64 = 100 / g;
    assert((raw_cents / step) * step <= raw_cents) by (nonlinear_arith)
        requires step > 0;
    let adj: u64 = (raw_cents / step) * step;
    if raw_cents == 0 {
        return Err(OrderRejection::SharesTooSmall);
    }
    if adj == 0 {
        return Err(OrderRejection::SharesTooSmallAfterAlignment { price_cents });
    }
    assert(adj * price_cents <= raw_cents * 99) by (nonlinear_arith)
        requires adj <= raw_cents, price_cents <= 99;
    let value: u64 = adj * price_cents;
    if value < 10_000 {
        return Err(OrderRejection::BelowMinimum { value });
    }
    proof {
        fok_order_is_whole_cents(shares as nat, ask as int, buffer as int);
    }
    Ok(FokOrder { size_cents: adj, price_cents })
}

/// A planned order costs a whole number of cents, at least $1.00, for at
/// least 0.01 shares and at most the shares asked for, at a price between
/// 0.01 and 0.99; its size is the largest whole-cent-cost size at or below
/// the hundredths of a share asked for.
pub proof fn fok_order_is_whole_cents(shares: nat, ask: int, buffer: int)
    requires
        shares <= u64::MAX,
        fok_plan(shares, ask, buffer) is Ok,
    ensures
        ({
            let o = fok_plan(shares, ask, buffer)->Ok_0;
            let raw_cents = shares / 10_000;
            &&& (o.size_cents * o.price_cents) % 100 == 0
            &&& o.size_cents * o.price_cents >= 10_000
            &&& 1 <= o.size_cents <= raw_cents
            &&& raw_cents - o.size_cents < size_step(o.price_cents as nat)
            &&& (o.size_cents as nat) % size_step(o.price_cents as nat) == 0
            &&& 1 <= o.price_cents <= 99
            &&& forall|s: nat| s <= raw_cents && #[trigger] ((s * o.price_cents) % 100) == 0 ==> s <= o.size_cents
        }),
{
    let p = limit_price_cents(ask, buffer);
    lemma_limit_price_range(ask, buffer);
    lemma_step_range(p as nat);
    let g = gcd_spec(p as nat, 100);
    let step = size_step(p as nat);
    let raw_cents = shares / 10_000;
    let k = raw_cents / step;
    let adj = k * step;
    let pk = p / (g as int);
    assert(p == (g as int) * pk) by (nonlinear_arith)
        requires g > 0, p % (g as int) == 0, pk == p / (g as int);
    assert(adj * p == k * pk * 100) by (nonlinear_arith)
        requires adj == k * step, p == (g as int) * pk, step * g == 100;
    assert((k * pk * 100) % 100 == 0) by (nonlinear_arith);
    assert(adj <= raw_cents && raw_cents - adj < step) by (nonlinear_arith)
        requires step > 0, k == raw_cents / step, adj == k * step;
    assert(adj % step == 0) by (nonlinear_arith)
        requires step > 0, adj == k * step;
    let o = fok_plan(shares, ask, buffer)->Ok_0;
    assert(o.size_cents == adj && o.price_cents == p);
    assert forall|s: nat| s <= raw_cents && #[trigger] ((s * o.price_cents) % 100) == 0 implies s <= o.size_cents by {
        lemma_whole_cent_sizes_are_steps(s, p as nat);
        assert(s <= adj) by (nonlinear_arith)
            requires s <= raw_cents, s % step == 0, step > 0, k == raw_cents / step, adj == k * step;
    }
}

/// Sixteen bytes from the operating system's random source
/// (`getrandom::fill`); `None` when the source reports an error. Which bytes
/// come back is chance and not stated.
#[verifier::external_body]
fn random_bytes() -> (res: Option<Vec<u8>>)
    ensures
        res matches Some(b) ==> b@.len() == 16,
{
    let mut bytes = [0u8; 16];
    match getrandom::fill(&mut bytes) {
        Ok(()) => Some(bytes.to_vec()),
        Err(_) => None,
    }
}

/// The bytes of a version-4 UUID made of sixteen random bytes: the high
/// nibble of byte 6 becomes the version (4), and the two high bits of byte 8
/// the variant (`10`).
pub open spec fn uuid_v4_bytes(b: Seq<u8>) -> Seq<u8> {
    b.update(6, ((b[6] & 0x0f) | 0x40) as u8).update(8, ((b[8] & 0x3f) | 0x80) as u8)
}

/// The hyphenated lower-case text of sixteen bytes: hex groups of 4, 2, 2,
/// 2 and 6 bytes joined by `-`.
pub open spec fn hyphenated_hex(b: Seq<u8>) -> Seq<char> {
    hex_text(b.subrange(0, 4)) + seq!['-'] + hex_text(b.subrange(4, 6)) + seq!['-'] + hex_text(b.subrange(6, 8))
        + seq!['-'] + hex_text(b.subrange(8, 10)) + seq!['-'] + hex_text(b.subrange(10, 16))
}

/// The text of the version-4 UUID made of sixteen random bytes.
pub open spec fn uuid_v4_text_of(bytes: Seq<u8>) -> Seq<char> {
    hyphenated_hex(uuid_v4_bytes(bytes))
}

/// The version-4 UUID made of `bytes` (`uuid::Builder::from_random_bytes`,
/// which sets the version and variant bits as `uuid_v4_bytes` says, then
/// `into_uuid` and `to_string`, which writes the hyphenated lower-case form).
#[verifier::external_body]
fn uuid_v4_text(bytes: &Vec<u8>) -> (res: String)
    requires
        bytes@.len() == 16,
    ensures
        res@ == uuid_v4_text_of(bytes@),
{
    let mut b = [0u8; 16];
    b.copy_from_slice(bytes.as_slice());
    uuid::Builder::from_random_bytes(b).into_uuid().to_string()
}

/// Why a paper buy could not be recorded.
#[derive(Clone, Copy, Debug, PartialEq, Eq, Structural)]
pub enum PaperFillError {
    /// The random source for the order id failed.
    NoRandomness,
}

/// Paper executor: every buy fills at the ask.
pub struct TestExecutor;

/// The paper fill of a buy, given the random bytes drawn for its order id
/// (`None` when the draw failed): all requested shares at the ask; the cost
/// is `shares * ask` rounded down to a millionth; the order id is `paper-`
/// followed by the version-4 UUID of the bytes.
pub fn paper_fill(params: &BuyParams, drawn: Option<Vec<u8>>) -> (res: Result<ExecResult, PaperFillError>)
    requires
        (params.shares as nat * params.ask_price as nat) / (MICROS as nat) <= u64::MAX,
        drawn matches Some(b) ==> b@.len() == 16,
    ensures
        drawn is None ==> res == Err::<ExecResult, PaperFillError>(PaperFillError::NoRandomness),
        drawn matches Some(b) ==> (res matches Ok(r) && {
            &&& r.fill_price == params.ask_price
            &&& r.shares == params.shares
            &&& r.usdc == (params.shares as nat * params.ask_price as nat) / (MICROS as nat)
            &&& r.order_id@ == "paper-"@ + uuid_v4_text_of(b@)
            &&& r.notes@ == "paper_mode"@
        }),
{
    let bytes = match drawn {
        Some(b) => b,
        None => return Err(PaperFillError::NoRandomness),
    };
    let fill_price = params.ask_price;
    assert(params.shares as u128 * fill_price as u128 <= 0xffff_ffff_ffff_ffffu128 * 0xffff_ffff_ffff_ffffu128) by (nonlinear_arith)
        requires params.shares <= 0xffff_ffff_ffff_ffffu64, fill_price <= 0xffff_ffff_ffff_ffffu64;
    let prod: u128 = params.shares as u128 * fill_price as u128;
    let usdc: u64 = (prod / 1_000_000) as u64;
    let mut order_id = "paper-".to_owned();
    let id = uuid_v4_text(&bytes);
    let idc = str_chars(id.as_str());
    push_chars(&mut order_id, &idc);
    Ok(ExecResult { fill_price, shares: params.shares, usdc, order_id, notes: "paper_mode".to_owned() })
}

impl TestExecutor {
    /// Simulates a buy: draws sixteen random bytes for the order id and
    /// fills as `paper_fill` says. It fails only when the random source does.
    pub fn execute_buy(&self, params: &BuyParams) -> (res: Result<ExecResult, PaperFillError>)
        requires
            (params.shares as nat * params.ask_price as nat) / (MICROS as nat) <= u64::MAX,
        ensures
            res matches Ok(r) ==> {
                &&& r.fill_price == params.ask_price
                &&& r.shares == params.shares
                &&& r.usdc == (params.shares as nat * params.ask_price as nat) / (MICROS as nat)
                &&& exists|b: Seq<u8>| b.len() == 16 && r.order_id@ == "paper-"@ + #[trigger] uuid_v4_text_of(b)
                &&& r.notes@ == "paper_mode"@
            },
            res is Err ==> res == Err::<ExecResult, PaperFillError>(PaperFillError::NoRandomness),
    {
        let drawn = random_bytes();
        let res = paper_fill(params, drawn);
        proof {
            if res is Ok {
                let b = drawn->0;
                assert(b@.len() == 16 && res->Ok_0.order_id@ == "paper-"@ + uuid_v4_text_of(b@));
            }
        }
        res
    }

    /// Paper orders are not live.
    pub fn is_live(&self) -> (res: bool)
        ensures
            !res,
    {
        false
    }

    /// A paper executor has no wallet.
    pub fn wallet_address(&self) -> (res: Option<String>)
        ensures
            res is None,
    {
        None
    }

    /// A paper executor holds no USDC.
    pub fn fetch_usdc_balance(&self) -> (res: u64)
        ensures
            res == 0,
    {
        0
    }
}

/// The balance has dropped by at least half the expected cost.
pub open spec fn settled(balance_before: u64, balance_now: u64, expected_usdc: u64) -> bool {
    balance_before as int - balance_now as int >= (expected_usdc as int) / 2
}

/// A matched order counts as settled once the wallet balance has dropped by
/// at least half the expected cost.
pub fn settlement_seen(balance_before: u64, balance_now: u64, expected_usdc: u64) -> (res: bool)
    ensures
        res == settled(balance_before, balance_now, expected_usdc),
{
    balance_before as i128 - balance_now as i128 >= (expected_usdc / 2) as i128
}

/// How many balance reads (one every half second) wait for settlement.
pub const SETTLEMENT_READS: usize = 12;

/// What to do after a balance read while waiting for settlement.
#[derive(Clone, Copy, Debug, PartialEq, Eq, Structural)]
pub enum SettlementStep {
    /// The balance dropped: the order settled.
    Settled,
    /// Read again.
    Wait,
    /// The last read passed without the drop: settlement failed.
    GiveUp,
}

/// Decides after the `reads`-th balance read (counting from 1): settled when
/// the drop shows, else give up once `SETTLEMENT_READS` reads are done, else
/// read again.
pub fn settlement_step(reads: usize, balance_before: u64, balance_now: u64, expected_usdc: u64) -> (res: SettlementStep)
    ensures
        settled(balance_before, balance_now, expected_usdc) ==> res == SettlementStep::Settled,
        !settled(balance_before, balance_now, expected_usdc) && reads >= SETTLEMENT_READS ==> res == SettlementStep::GiveUp,
        !settled(balance_before, balance_now, expected_usdc) && reads < SETTLEMENT_READS ==> res == SettlementStep::Wait,
{
    if settlement_seen(balance_before, balance_now, expected_usdc) {
        SettlementStep::Settled
    } else if reads >= SETTLEMENT_READS {
        SettlementStep::GiveUp
    } else {
        SettlementStep::Wait
    }
}

/// A count of hundredths as a decimal with two places, e.g. 1234 -> `12.34`.
pub open spec fn cents_text(v: nat) -> Seq<char> {
    dec_digits(v / 100) + seq!['.'] + (if v % 100 < 10 { seq!['0'] + dec_digits(v % 100) } else { dec_digits(v % 100) })
}

/// Writes a count of hundredths (a size or a price in cents) as the
/// decimal text the order API takes.
pub fn format_cents(v: u64) -> (res: String)
    ensures
        res@ == cents_text(v as nat),
{
    let whole = u64_to_decimal(v / 100);
    let mut out = String::new();
    let wc = str_chars(whole.as_str());
    push_chars(&mut out, &wc);
    push_char(&mut out, '.');
    let frac: u64 = v % 100;
    if frac < 10 {
        push_char(&mut out, '0');
    }
    let fr = u64_to_decimal(frac);
    let fc = str_chars(fr.as_str());
    push_chars(&mut out, &fc);
    proof {
        if frac < 10 {
            assert(out@ =~= dec_digits((v / 100) as nat) + seq!['.'] + (seq!['0'] + dec_digits(frac as nat)));
        } else {
            assert(out@ =~= dec_digits((v / 100) as nat) + seq!['.'] + dec_digits(frac as nat));
        }
    }
    out
}

/// Why a posted order does not count as a fill.
#[derive(Clone, Copy, Debug, PartialEq, Eq, Structural)]
pub enum FillFailure {
    /// The order was not reported as matched.
    NotFilled,
    /// Matched, but no trade was registered.
    PhantomMatch,
    /// Matched, but the wallet balance did not drop.
    NotSettled,
}

/// What the order reply says: a fill needs a successful, matched order with
/// at least one trade id.
pub fn check_order_reply(success: bool, matched: bool, trade_ids: usize) -> (res: Result<(), FillFailure>)
    ensures
        !(success && matched) ==> res == Err::<(), FillFailure>(FillFailure::NotFilled),
        success && matched && trade_ids == 0 ==> res == Err::<(), FillFailure>(FillFailure::PhantomMatch),
        success && matched && trade_ids > 0 ==> res is Ok,
{
    if !success || !matched {
        Err(FillFailure::NotFilled)
    } else if trade_ids == 0 {
        Err(FillFailure::PhantomMatch)
    } else {
        Ok(())
    }
}

/// The amounts of a fill: those the reply reports when positive, else the
/// ones the order was sized for.
pub fn fill_amounts(taking: u64, making: u64, planned_shares: u64, planned_usdc: u64) -> (res: (u64, u64))
    ensures
        res.0 == (if taking > 0 { taking } else { planned_shares }),
        res.1 == (if making > 0 { making } else { planned_usdc }),
{
    (if taking > 0 { taking } else { planned_shares }, if making > 0 { making } else { planned_usdc })
}

/// The cost a planned order expects, in millionths of USDC: size (hundredths
/// of a share) times price (cents) is in ten-thousandths.
pub fn planned_cost(o: FokOrder) -> (res: u64)
    requires
        o.price_cents <= 99,
        o.size_cents <= u64::MAX / 10_000,
    ensures
        res == o.size_cents as nat * o.price_cents as nat * 100,
{
    assert(o.size_cents as nat * o.price_cents as nat * 100 <= (u64::MAX / 10_000) as nat * 9900) by (nonlinear_arith)
        requires o.price_cents <= 99, o.size_cents <= u64::MAX / 10_000;
    o.size_cents * o.price_cents * 100
}


} // verus!
