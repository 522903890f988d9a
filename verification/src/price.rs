//! Recent oracle rounds of the asset price, looked up by round timestamp.
use vstd::prelude::*;

verus! {

/// How many rounds the history keeps.
pub const MAX_POINTS: usize = 60;

/// One oracle round: the asset price in units of `10^-8` USD and the round's
/// timestamp in Unix seconds.
#[derive(Clone, Copy, Debug, PartialEq, Eq, Structural)]
pub struct PricePoint {
    pub price: u64,
    pub chainlink_ts: i64,
}

/// A sliding window of the most recent rounds in time order, oldest first.
pub struct PriceHistory {
    points: Vec<PricePoint>,
}

/// Rounds strictly in time order.
pub open spec fn increasing(s: Seq<PricePoint>) -> bool {
    forall|i: int, j: int| 0 <= i < j < s.len() ==> s[i].chainlink_ts < s[j].chainlink_ts
}

/// Round `i` is the one in effect at `ts`: it is stamped at or before `ts`,
/// and no round stamped at or before `ts` is newer.
pub open spec fn in_effect_at(s: Seq<PricePoint>, ts: int, i: int) -> bool {
    &&& 0 <= i < s.len()
    &&& s[i].chainlink_ts <= ts
    &&& forall|j: int| 0 <= j < s.len() && s[j].chainlink_ts <= ts ==> s[j].chainlink_ts <= s[i].chainlink_ts
}

/// The window after `p` arrives: a round not newer than the newest one (a
/// repeat or a late one) is dropped, so the window stays in time order;
/// otherwise `p` is appended and, past the limit, the oldest round leaves.
pub open spec fn pushed(s: Seq<PricePoint>, p: PricePoint) -> Seq<PricePoint> {
    if s.len() > 0 && p.chainlink_ts <= s.last().chainlink_ts {
        s
    } else if s.len() + 1 > MAX_POINTS {
        s.push(p).drop_first()
    } else {
        s.push(p)
    }
}

/// The price of the first round stamped exactly `ts`.
pub open spec fn first_exact(s: Seq<PricePoint>, ts: int) -> Option<u64>
    decreases s.len(),
{
    if s.len() == 0 {
        None
    } else if s[0].chainlink_ts == ts {
        Some(s[0].price)
    } else {
        first_exact(s.drop_first(), ts)
    }
}

/// The price of the newest round stamped at or before `ts`.
pub open spec fn last_at_or_before(s: Seq<PricePoint>, ts: int) -> Option<u64>
    decreases s.len(),
{
    if s.len() == 0 {
        None
    } else if s.last().chainlink_ts <= ts {
        Some(s.last().price)
    } else {
        last_at_or_before(s.drop_last(), ts)
    }
}

/// Round timestamps may come in milliseconds; values past 10^12 are taken as
/// milliseconds. A missing (non-positive) timestamp is replaced by `now`.
pub open spec fn normalized_ts(raw: int, now: int) -> int {
    let secs = if raw > 1_000_000_000_000 { raw / 1000 } else { raw };
    if secs > 0 { secs } else { now }
}

impl View for PriceHistory {
    type V = Seq<PricePoint>;

    closed spec fn view(&self) -> Seq<PricePoint> {
        self.points@
    }
}

impl PriceHistory {
    #[verifier::type_invariant]
    spec fn bounded(&self) -> bool {
        &&& self.points@.len() <= MAX_POINTS
        &&& increasing(self.points@)
    }

    /// An empty history.
    pub fn new() -> (res: Self)
        ensures
            res@ == Seq::<PricePoint>::empty(),
    {
        PriceHistory { points: Vec::new() }
    }

    /// Records a round (see `pushed`).
    pub fn push(&mut self, p: PricePoint)
        ensures
            final(self)@ == pushed(old(self)@, p),
            final(self)@.len() <= MAX_POINTS,
            increasing(final(self)@),
    {
        proof {
            use_type_invariant(&*self);
            pushed_keeps_time_order(self.points@, p);
        }
        let n = self.points.len();
        if n > 0 && p.chainlink_ts <= self.points[n - 1].chainlink_ts {
            return;
        }
        let mut pts: Vec<PricePoint> = Vec::new();
        std::mem::swap(&mut pts, &mut self.points);
        pts.push(p);
        if pts.len() > MAX_POINTS {
            pts.remove(0);
            assert(pts@ =~= old(self)@.push(p).drop_first());
        }
        self.points = pts;
    }

    /// Records an update from the price stream: a positive price is stored
    /// under its normalised round timestamp; other prices are ignored.
    pub fn record_update(&mut self, price: u64, raw_ts: i64, now: i64)
        ensures
            price > 0 ==> final(self)@ == pushed(
                old(self)@,
                PricePoint { price, chainlink_ts: normalized_ts(raw_ts as int, now as int) as i64 },
            ),
            price == 0 ==> final(self)@ == old(self)@,
    {
        if price > 0 {
            let ts = normalize_chainlink_ts(raw_ts, now);
            self.push(PricePoint { price, chainlink_ts: ts });
        }
    }

    /// The newest price, or 0 when there is none.
    pub fn current_price(&self) -> (res: u64)
        ensures
            res == (if self@.len() > 0 { self@.last().price } else { 0 }),
    {
        let n = self.points.len();
        if n > 0 {
            self.points[n - 1].price
        } else {
            0
        }
    }

    /// The price of the round stamped exactly `ts`.
    pub fn price_exact(&self, ts: i64) -> (res: Option<u64>)
        ensures
            res == first_exact(self@, ts as int),
    {
        let mut i: usize = 0;
        assert(self.points@.skip(0) =~= self.points@);
        while i < self.points.len()
            invariant
                i <= self.points@.len(),
                first_exact(self.points@, ts as int) == first_exact(self.points@.skip(i as int), ts as int),
            decreases self.points@.len() - i,
        {
            if self.points[i].chainlink_ts == ts {
                return Some(self.points[i].price);
            }
            assert(self.points@.skip(i as int).drop_first() =~= self.points@.skip(i + 1));
            i = i + 1;
        }
        None
    }

    /// The price in effect at `ts`: that of the newest round at or before it
    /// (`None` when every round is later).
    pub fn price_at(&self, ts: i64) -> (res: Option<u64>)
        ensures
            res == last_at_or_before(self@, ts as int),
            res is None <==> (forall|j: int| 0 <= j < self@.len() ==> self@[j].chainlink_ts > ts),
            res matches Some(v) ==> exists|i: int| #[trigger] in_effect_at(self@, ts as int, i) && self@[i].price == v,
    {
        proof {
            use_type_invariant(self);
        }
        let mut i: usize = self.points.len();
        assert(self.points@.take(i as int) =~= self.points@);
        while i > 0
            invariant
                i <= self.points@.len(),
                increasing(self.points@),
                forall|k: int| i <= k < self.points@.len() ==> self.points@[k].chainlink_ts > ts,
                last_at_or_before(self.points@, ts as int) == last_at_or_before(
                    self.points@.take(i as int),
                    ts as int,
                ),
            decreases i,
        {
            if self.points[i - 1].chainlink_ts <= ts {
                assert(in_effect_at(self.points@, ts as int, i - 1));
                return Some(self.points[i - 1].price);
            }
            assert(self.points@.take(i as int).drop_last() =~= self.points@.take(i - 1));
            i = i - 1;
        }
        None
    }
}

/// The round timestamp in seconds (see `normalized_ts`).
pub fn normalize_chainlink_ts(raw: i64, now: i64) -> (res: i64)
    ensures
        res == normalized_ts(raw as int, now as int),
{
    let secs = if raw > 1_000_000_000_000 { raw / 1000 } else { raw };
    if secs > 0 { secs } else { now }
}

/// The current Unix time in seconds, for stamping rounds that come without one.
pub fn now_secs() -> i64 {
    crate::market::system_unix_secs() as i64
}

/// Recording a round keeps the window in time order.
pub proof fn pushed_keeps_time_order(s: Seq<PricePoint>, p: PricePoint)
    requires
        increasing(s),
    ensures
        increasing(pushed(s, p)),
{
    if !(s.len() > 0 && p.chainlink_ts <= s.last().chainlink_ts) {
        let t = s.push(p);
        assert forall|i: int, j: int| 0 <= i < j < t.len() implies t[i].chainlink_ts < t[j].chainlink_ts by {
            if j == t.len() - 1 && s.len() > 0 {
                assert(t[i] == s[i]);
                assert(s[i].chainlink_ts <= s.last().chainlink_ts);
            }
        }
        if s.len() + 1 > MAX_POINTS {
            let u = t.drop_first();
            assert forall|i: int, j: int| 0 <= i < j < u.len() implies u[i].chainlink_ts < u[j].chainlink_ts by {
                assert(u[i] == t[i + 1] && u[j] == t[j + 1]);
            }
        }
    }
}

/// A round newer than every round in the window becomes the current price,
/// and it is what an exact lookup of its timestamp finds.
pub proof fn pushed_round_is_found(s: Seq<PricePoint>, p: PricePoint)
    requires
        s.len() <= MAX_POINTS,
        increasing(s),
        s.len() == 0 || s.last().chainlink_ts < p.chainlink_ts,
    ensures
        pushed(s, p).last() == p,
        first_exact(pushed(s, p), p.chainlink_ts as int) == Some(p.price),
        pushed(s, p).len() <= MAX_POINTS,
{
    let t = pushed(s, p);
    assert forall|i: int| 0 <= i < t.len() - 1 implies #[trigger] t[i].chainlink_ts != p.chainlink_ts by {
        if s.len() + 1 > MAX_POINTS {
            assert(t[i] == s[i + 1]);
        } else {
            assert(t[i] == s[i]);
        }
        if s.len() > 0 {
            assert(s[s.len() - 1].chainlink_ts < p.chainlink_ts);
        }
    }
    lemma_first_exact_last(t, p);
}

proof fn lemma_first_exact_last(t: Seq<PricePoint>, p: PricePoint)
    requires
        t.len() > 0,
        t.last() == p,
        forall|i: int| 0 <= i < t.len() - 1 ==> #[trigger] t[i].chainlink_ts != p.chainlink_ts,
    ensures
        first_exact(t, p.chainlink_ts as int) == Some(p.price),
    decreases t.len(),
{
    if t.len() > 1 {
        let u = t.drop_first();
        assert forall|i: int| 0 <= i < u.len() - 1 implies #[trigger] u[i].chainlink_ts != p.chainlink_ts by {
            assert(u[i] == t[i + 1]);
        }
        lemma_first_exact_last(u, p);
    }
}

/// The price in effect at a round's own timestamp, right after it was
/// recorded, is that round's price.
pub proof fn pushed_round_is_in_effect(s: Seq<PricePoint>, p: PricePoint)
    requires
        s.len() == 0 || s.last().chainlink_ts < p.chainlink_ts,
    ensures
        last_at_or_before(pushed(s, p), p.chainlink_ts as int) == Some(p.price),
{
}

} // verus!
