//! Order books: price levels, their ordering and the asks worth buying.
use vstd::prelude::*;
use vstd::multiset::Multiset;
use crate::order::MICROS;
use crate::text::parse_decimal_scaled;
use crate::text::decimal_scaled_i64;

verus! {

broadcast use vstd::seq_lib::group_to_multiset_ensures;

/// One price level: price per share and number of shares, both in millionths.
#[derive(Clone, Copy, Debug, PartialEq, Eq, Structural)]
pub struct OrderLevel {
    pub price: u64,
    pub size: u64,
}

/// The cost of a level, `price * size`, in millionths of USDC (rounded down).
pub open spec fn level_value(l: OrderLevel) -> nat {
    (l.price as nat * l.size as nat) / (MICROS as nat)
}

impl OrderLevel {
    /// What buying the whole level costs, in millionths of USDC.
    pub fn value(&self) -> (res: u128)
        ensures
            res == level_value(*self),
    {
        assert(self.price as u128 * self.size as u128 <= 0xffff_ffff_ffff_ffffu128 * 0xffff_ffff_ffff_ffffu128) by (nonlinear_arith)
            requires self.price <= 0xffff_ffff_ffff_ffffu64, self.size <= 0xffff_ffff_ffff_ffffu64;
        (self.price as u128 * self.size as u128) / 1_000_000
    }
}

pub open spec fn sorted_ascending(s: Seq<OrderLevel>) -> bool {
    forall|i: int, j: int| 0 <= i < j < s.len() ==> s[i].price <= s[j].price
}

pub open spec fn sorted_descending(s: Seq<OrderLevel>) -> bool {
    forall|i: int, j: int| 0 <= i < j < s.len() ==> s[i].price >= s[j].price
}

pub open spec fn total_value(s: Seq<OrderLevel>) -> nat
    decreases s.len(),
{
    if s.len() == 0 {
        0
    } else {
        total_value(s.drop_last()) + level_value(s.last())
    }
}

pub open spec fn total_size(s: Seq<OrderLevel>) -> nat
    decreases s.len(),
{
    if s.len() == 0 {
        0
    } else {
        total_size(s.drop_last()) + s.last().size as nat
    }
}

/// Levels priced below one dollar, in their order.
pub open spec fn below_one_dollar(s: Seq<OrderLevel>) -> Seq<OrderLevel> {
    s.filter(|l: OrderLevel| l.price < MICROS)
}

/// Index of the first level from `i` on priced above `p` (the length when
/// there is none).
pub open spec fn first_above(s: Seq<OrderLevel>, p: u64, i: int) -> int
    decreases s.len() - i,
{
    if i < 0 || i >= s.len() {
        s.len() as int
    } else if s[i].price > p {
        i
    } else {
        first_above(s, p, i + 1)
    }
}

/// Index of the first level from `i` on priced below `p` (the length when
/// there is none).
pub open spec fn first_below(s: Seq<OrderLevel>, p: u64, i: int) -> int
    decreases s.len() - i,
{
    if i < 0 || i >= s.len() {
        s.len() as int
    } else if s[i].price < p {
        i
    } else {
        first_below(s, p, i + 1)
    }
}

/// The levels sorted cheapest first, each level placed after every level
/// of equal price that came before it.
pub open spec fn stable_ascending(s: Seq<OrderLevel>) -> Seq<OrderLevel>
    decreases s.len(),
{
    if s.len() == 0 {
        Seq::empty()
    } else {
        let t = stable_ascending(s.drop_last());
        t.insert(first_above(t, s.last().price, 0), s.last())
    }
}

/// The levels sorted dearest first, each level placed after every level
/// of equal price that came before it.
pub open spec fn stable_descending(s: Seq<OrderLevel>) -> Seq<OrderLevel>
    decreases s.len(),
{
    if s.len() == 0 {
        Seq::empty()
    } else {
        let t = stable_descending(s.drop_last());
        t.insert(first_below(t, s.last().price, 0), s.last())
    }
}

/// Sorts levels by price, cheapest first; levels of equal price keep their
/// order.
pub fn sort_ascending(levels: Vec<OrderLevel>) -> (res: Vec<OrderLevel>)
    ensures
        res@ == stable_ascending(levels@),
        sorted_ascending(res@),
        res@.to_multiset() == levels@.to_multiset(),
{
    let mut out: Vec<OrderLevel> = Vec::new();
    let mut i: usize = 0;
    while i < levels.len()
        invariant
            i <= levels.len(),
            sorted_ascending(out@),
            out@.to_multiset() == levels@.take(i as int).to_multiset(),
            out@ == stable_ascending(levels@.take(i as int)),
        decreases levels.len() - i,
    {
        let x = levels[i];
        let mut pos: usize = 0;
        while pos < out.len() && out[pos].price <= x.price
            invariant
                pos <= out.len(),
                forall|k: int| 0 <= k < pos ==> out@[k].price <= x.price,
                first_above(out@, x.price, 0) == first_above(out@, x.price, pos as int),
            decreases out.len() - pos,
        {
            pos = pos + 1;
        }
        let ghost before = out@;
        out.insert(pos, x);
        proof {
            assert(out@ == before.insert(pos as int, x));
            assert(levels@.take(i + 1).drop_last() =~= levels@.take(i as int));
            assert forall|a: int, b: int| 0 <= a < b < out@.len() implies out@[a].price <= out@[b].price by {
                if b < pos {
                } else if b == pos {
                    assert(out@[a] == before[a]);
                } else if a == pos {
                    assert(out@[b] == before[b - 1]);
                    assert(pos < before.len());
                    assert(before[pos as int].price > x.price);
                } else if a < pos {
                    assert(out@[b] == before[b - 1]);
                } else {
                    assert(out@[a] == before[a - 1]);
                    assert(out@[b] == before[b - 1]);
                }
            }
            assert(levels@.take(i + 1) =~= levels@.take(i as int).push(x));
        }
        i = i + 1;
    }
    assert(levels@.take(i as int) =~= levels@);
    out
}

/// Sorts levels by price, dearest first; levels of equal price keep their
/// order.
pub fn sort_descending(levels: Vec<OrderLevel>) -> (res: Vec<OrderLevel>)
    ensures
        res@ == stable_descending(levels@),
        sorted_descending(res@),
        res@.to_multiset() == levels@.to_multiset(),
{
    let mut out: Vec<OrderLevel> = Vec::new();
    let mut i: usize = 0;
    while i < levels.len()
        invariant
            i <= levels.len(),
            sorted_descending(out@),
            out@.to_multiset() == levels@.take(i as int).to_multiset(),
            out@ == stable_descending(levels@.take(i as int)),
        decreases levels.len() - i,
    {
        let x = levels[i];
        let mut pos: usize = 0;
        while pos < out.len() && out[pos].price >= x.price
            invariant
                pos <= out.len(),
                forall|k: int| 0 <= k < pos ==> out@[k].price >= x.price,
                first_below(out@, x.price, 0) == first_below(out@, x.price, pos as int),
            decreases out.len() - pos,
        {
            pos = pos + 1;
        }
        let ghost before = out@;
        out.insert(pos, x);
        proof {
            assert(out@ == before.insert(pos as int, x));
            assert(levels@.take(i + 1).drop_last() =~= levels@.take(i as int));
            assert forall|a: int, b: int| 0 <= a < b < out@.len() implies out@[a].price >= out@[b].price by {
                if b < pos {
                } else if b == pos {
                    assert(out@[a] == before[a]);
                } else if a == pos {
                    assert(out@[b] == before[b - 1]);
                    assert(pos < before.len());
                    assert(before[pos as int].price < x.price);
                } else if a < pos {
                    assert(out@[b] == before[b - 1]);
                } else {
                    assert(out@[a] == before[a - 1]);
                    assert(out@[b] == before[b - 1]);
                }
            }
            assert(levels@.take(i + 1) =~= levels@.take(i as int).push(x));
        }
        i = i + 1;
    }
    assert(levels@.take(i as int) =~= levels@);
    out
}

/// A number as the book feed gives it: text, or a number the caller has
/// already converted to millionths.
#[derive(Clone, Debug)]
pub enum RawNumber {
    Text(String),
    Micros(u64),
    Missing,
}

/// One level as the book feed gives it.
#[derive(Clone, Debug)]
pub struct RawLevel {
    pub price: RawNumber,
    pub size: RawNumber,
}

/// The value of a raw number in millionths, when it is a positive decimal.
pub open spec fn raw_micros(n: RawNumber) -> Option<u64> {
    match n {
        RawNumber::Text(t) => match decimal_scaled_i64(t@, 6) {
            Some(v) => if v > 0 { Some(v as u64) } else { None },
            None => None,
        },
        RawNumber::Micros(m) => if m > 0 { Some(m) } else { None },
        RawNumber::Missing => None,
    }
}

/// The level a raw entry stands for: both numbers present and positive.
pub open spec fn raw_level(r: RawLevel) -> Option<OrderLevel> {
    match (raw_micros(r.price), raw_micros(r.size)) {
        (Some(p), Some(s)) => Some(OrderLevel { price: p, size: s }),
        _ => None,
    }
}

/// The levels of a raw book, entries that are not levels skipped.
pub open spec fn raw_levels(s: Seq<RawLevel>) -> Seq<OrderLevel>
    decreases s.len(),
{
    if s.len() == 0 {
        Seq::empty()
    } else {
        match raw_level(s.last()) {
            Some(l) => raw_levels(s.drop_last()).push(l),
            None => raw_levels(s.drop_last()),
        }
    }
}

fn positive_micros(n: &RawNumber) -> (res: Option<u64>)
    ensures
        res == raw_micros(*n),
{
    match n {
        RawNumber::Text(t) => match parse_decimal_scaled(t.as_str(), 6) {
            Some(v) => if v > 0 { Some(v as u64) } else { None },
            None => None,
        },
        RawNumber::Micros(m) => if *m > 0 { Some(*m) } else { None },
        RawNumber::Missing => None,
    }
}

/// Reads one raw entry (see `raw_level`).
pub fn parse_level(r: &RawLevel) -> (res: Option<OrderLevel>)
    ensures
        res == raw_level(*r),
{
    let p = positive_micros(&r.price);
    let s = positive_micros(&r.size);
    match (p, s) {
        (Some(p), Some(s)) => Some(OrderLevel { price: p, size: s }),
        _ => None,
    }
}

/// Reads the levels of a raw book, skipping entries without a positive price
/// and size.
pub fn parse_levels(raws: &Vec<RawLevel>) -> (res: Vec<OrderLevel>)
    ensures
        res@ == raw_levels(raws@),
{
    let mut out: Vec<OrderLevel> = Vec::new();
    let mut i: usize = 0;
    while i < raws.len()
        invariant
            i <= raws.len(),
            out@ == raw_levels(raws@.take(i as int)),
        decreases raws.len() - i,
    {
        let l = parse_level(&raws[i]);
        proof {
            assert(raws@.take(i + 1).drop_last() =~= raws@.take(i as int));
        }
        match l {
            Some(l) => out.push(l),
            None => {},
        }
        i = i + 1;
    }
    assert(raws@.take(i as int) =~= raws@);
    out
}

/// One side of a market's book.
#[derive(Clone, Debug)]
pub struct TokenBook {
    /// Cheapest first.
    pub asks: Vec<OrderLevel>,
    /// Dearest first.
    pub bids: Vec<OrderLevel>,
}

impl TokenBook {
    /// An empty book.
    pub fn empty() -> (res: Self)
        ensures
            res.asks@.len() == 0,
            res.bids@.len() == 0,
    {
        TokenBook { asks: Vec::new(), bids: Vec::new() }
    }

    /// A book of the given levels, asks sorted cheapest first and bids
    /// dearest first.
    pub fn from_levels(asks: Vec<OrderLevel>, bids: Vec<OrderLevel>) -> (res: Self)
        ensures
            res.asks@ == stable_ascending(asks@),
            res.bids@ == stable_descending(bids@),
            sorted_ascending(res.asks@),
            sorted_descending(res.bids@),
            res.asks@.to_multiset() == asks@.to_multiset(),
            res.bids@.to_multiset() == bids@.to_multiset(),
    {
        TokenBook { asks: sort_ascending(asks), bids: sort_descending(bids) }
    }

    /// The price of the first ask.
    pub fn best_ask(&self) -> (res: Option<u64>)
        ensures
            res == (if self.asks@.len() > 0 { Some(self.asks@[0].price) } else { None::<u64> }),
    {
        if self.asks.len() > 0 {
            Some(self.asks[0].price)
        } else {
            None
        }
    }

    /// What all asks cost together, in millionths of USDC.
    pub fn total_ask_usdc(&self) -> (res: u128)
        requires
            total_value(self.asks@) <= u128::MAX,
        ensures
            res == total_value(self.asks@),
    {
        let mut sum: u128 = 0;
        let mut i: usize = 0;
        while i < self.asks.len()
            invariant
                i <= self.asks@.len(),
                sum == total_value(self.asks@.take(i as int)),
                total_value(self.asks@) <= u128::MAX,
            decreases self.asks@.len() - i,
        {
            proof {
                assert(self.asks@.take(i + 1).drop_last() =~= self.asks@.take(i as int));
                lemma_total_value_prefix(self.asks@, i + 1);
            }
            sum = sum + self.asks[i].value();
            i = i + 1;
        }
        assert(self.asks@.take(i as int) =~= self.asks@);
        sum
    }

    /// How many shares all asks offer together, in millionths.
    pub fn total_ask_shares(&self) -> (res: u128)
        ensures
            res == total_size(self.asks@),
    {
        let mut sum: u128 = 0;
        let mut i: usize = 0;
        while i < self.asks.len()
            invariant
                i <= self.asks@.len(),
                sum == total_size(self.asks@.take(i as int)),
                sum <= i * 0xffff_ffff_ffff_ffff,
            decreases self.asks@.len() - i,
        {
            proof {
                assert(self.asks@.take(i + 1).drop_last() =~= self.asks@.take(i as int));
            }
            sum = sum + self.asks[i].size as u128;
            i = i + 1;
        }
        assert(self.asks@.take(i as int) =~= self.asks@);
        sum
    }

    /// The asks priced below one dollar, in book order.
    pub fn asks_below_one_dollar(&self) -> (res: Vec<OrderLevel>)
        ensures
            res@ == below_one_dollar(self.asks@),
    {
        let mut out: Vec<OrderLevel> = Vec::new();
        let mut i: usize = 0;
        while i < self.asks.len()
            invariant
                i <= self.asks@.len(),
                out@ == below_one_dollar(self.asks@.take(i as int)),
            decreases self.asks@.len() - i,
        {
            proof {
                let t = self.asks@.take(i + 1);
                assert(t.drop_last() =~= self.asks@.take(i as int));
                reveal_with_fuel(Seq::filter, 1);
            }
            if self.asks[i].price < MICROS {
                out.push(self.asks[i]);
            }
            i = i + 1;
        }
        assert(self.asks@.take(i as int) =~= self.asks@);
        out
    }
}

proof fn lemma_total_value_prefix(s: Seq<OrderLevel>, i: int)
    requires
        0 <= i <= s.len(),
    ensures
        total_value(s.take(i)) <= total_value(s),
    decreases s.len(),
{
    if i < s.len() {
        assert(s.drop_last().take(i) =~= s.take(i));
        lemma_total_value_prefix(s.drop_last(), i);
    } else {
        assert(s.take(i) =~= s);
    }
}

fn copy_levels(v: &Vec<OrderLevel>) -> (res: Vec<OrderLevel>)
    ensures
        res@ == v@,
{
    let mut out: Vec<OrderLevel> = Vec::new();
    let mut i: usize = 0;
    while i < v.len()
        invariant
            i <= v.len(),
            out@ == v@.take(i as int),
        decreases v.len() - i,
    {
        out.push(v[i]);
        assert(v@.take(i + 1) =~= v@.take(i as int).push(v@[i as int]));
        i = i + 1;
    }
    assert(v@.take(i as int) =~= v@);
    out
}

impl TokenBook {
    /// A copy of the book.
    pub fn duplicate(&self) -> (res: Self)
        ensures
            res.asks@ == self.asks@,
            res.bids@ == self.bids@,
    {
        TokenBook { asks: copy_levels(&self.asks), bids: copy_levels(&self.bids) }
    }
}

/// Both sides of a market's book.
#[derive(Clone, Debug)]
pub struct Orderbook {
    pub up: TokenBook,
    pub down: TokenBook,
    /// Unix seconds when it was read.
    pub fetched_at: i64,
}

impl Orderbook {
    /// A book with no levels.
    pub fn empty() -> (res: Self)
        ensures
            res.up.asks@.len() == 0 && res.up.bids@.len() == 0,
            res.down.asks@.len() == 0 && res.down.bids@.len() == 0,
            res.fetched_at == 0,
    {
        Orderbook { up: TokenBook::empty(), down: TokenBook::empty(), fetched_at: 0 }
    }

    /// A copy of the book.
    pub fn duplicate(&self) -> (res: Self)
        ensures
            res.up.asks@ == self.up.asks@ && res.up.bids@ == self.up.bids@,
            res.down.asks@ == self.down.asks@ && res.down.bids@ == self.down.bids@,
            res.fetched_at == self.fetched_at,
    {
        Orderbook { up: self.up.duplicate(), down: self.down.duplicate(), fetched_at: self.fetched_at }
    }
}

} // verus!
