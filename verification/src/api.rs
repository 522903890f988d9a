//! Market metadata and resolution as the market API reports them, and the
//! query text sent to it.
use vstd::prelude::*;
use crate::text::{contains_chars, contains_seq, decimal_scaled_i64, lowercase_of, parse_decimal_scaled, push_char, str_chars, string_from_chars, to_lowercase};
use crate::types::{MarketMeta, Outcome};
use crate::market::{market_slug, slug_of};
use vstd::string::StringSliceAdditionalSpecFns;

verus! {

/// Bytes sent as themselves in a query: letters, digits and `-_.~`.
pub open spec fn is_unreserved(b: u8) -> bool {
    (65 <= b <= 90) || (97 <= b <= 122) || (48 <= b <= 57) || b == 45 || b == 95 || b == 46 || b == 126
}

/// Upper-case hex digit of a value below 16.
pub open spec fn hex_upper(v: int) -> char {
    if v < 10 { (v + 48) as char } else { (v + 55) as char }
}

/// Percent-encoding of a byte string: unreserved bytes as themselves, every
/// other byte as `%` and two upper-case hex digits.
pub open spec fn percent_encoded(bytes: Seq<u8>) -> Seq<char>
    decreases bytes.len(),
{
    if bytes.len() == 0 {
        Seq::empty()
    } else {
        let b = bytes.last();
        let tail = if is_unreserved(b) {
            seq![b as char]
        } else {
            seq!['%', hex_upper((b / 16) as int), hex_upper((b % 16) as int)]
        };
        percent_encoded(bytes.drop_last()) + tail
    }
}

fn hex_upper_char(v: u8) -> (c: char)
    requires
        v < 16,
    ensures
        c == hex_upper(v as int),
{
    if v < 10 {
        (v + 48) as char
    } else {
        (v + 55) as char
    }
}

/// Percent-encodes the UTF-8 bytes of `s` for use in a query string.
pub fn url_encode(s: &str) -> (res: String)
    ensures
        res@ == percent_encoded(s.spec_bytes()),
{
    let bytes = s.as_bytes();
    let mut out = String::new();
    let mut i: usize = 0;
    while i < bytes.len()
        invariant
            i <= bytes@.len(),
            bytes@ == s.spec_bytes(),
            out@ == percent_encoded(bytes@.take(i as int)),
        decreases bytes@.len() - i,
    {
        let b = bytes[i];
        proof {
            assert(bytes@.take(i + 1).drop_last() =~= bytes@.take(i as int));
        }
        let ghost prev = out@;
        if (65 <= b && b <= 90) || (97 <= b && b <= 122) || (48 <= b && b <= 57) || b == 45 || b == 95
            || b == 46 || b == 126 {
            push_char(&mut out, b as char);
            assert(out@ =~= prev + seq![b as char]);
        } else {
            push_char(&mut out, '%');
            push_char(&mut out, hex_upper_char(b / 16));
            push_char(&mut out, hex_upper_char(b % 16));
            assert(out@ =~= prev + seq!['%', hex_upper((b / 16) as int), hex_upper((b % 16) as int)]);
        }
        i = i + 1;
    }
    assert(bytes@.take(i as int) =~= bytes@);
    out
}

/// Text made only of unreserved bytes is sent unchanged.
pub proof fn unreserved_text_is_unchanged(bytes: Seq<u8>)
    requires
        forall|i: int| 0 <= i < bytes.len() ==> is_unreserved(#[trigger] bytes[i]),
    ensures
        percent_encoded(bytes) == bytes.map_values(|b: u8| b as char),
    decreases bytes.len(),
{
    if bytes.len() > 0 {
        let init = bytes.drop_last();
        assert forall|i: int| 0 <= i < init.len() implies is_unreserved(#[trigger] init[i]) by {
            assert(init[i] == bytes[i]);
        }
        unreserved_text_is_unchanged(init);
        assert(bytes.map_values(|b: u8| b as char) =~= init.map_values(|b: u8| b as char) + seq![bytes.last() as char]);
    }
}

/// Every encoded character is unreserved or part of a `%XX` escape: the
/// output is plain ASCII, and its length is the byte count plus two per
/// escaped byte.
pub proof fn encoding_is_ascii(bytes: Seq<u8>)
    ensures
        forall|i: int| 0 <= i < percent_encoded(bytes).len() ==> (#[trigger] percent_encoded(bytes)[i] as int) < 128,
        percent_encoded(bytes).len() >= bytes.len(),
    decreases bytes.len(),
{
    if bytes.len() > 0 {
        encoding_is_ascii(bytes.drop_last());
        let init = percent_encoded(bytes.drop_last());
        let b = bytes.last();
        let tail = if is_unreserved(b) {
            seq![b as char]
        } else {
            seq!['%', hex_upper((b / 16) as int), hex_upper((b % 16) as int)]
        };
        assert(percent_encoded(bytes) == init + tail);
        assert forall|i: int| 0 <= i < percent_encoded(bytes).len() implies (#[trigger] percent_encoded(bytes)[i] as int) < 128 by {
            if i < init.len() {
                assert(percent_encoded(bytes)[i] == init[i]);
            } else {
                assert(percent_encoded(bytes)[i] == tail[i - init.len()]);
            }
        }
    }
}

/// Bytes that may continue a dollar amount: digits, `,` and `.`.
pub open spec fn is_amount_byte(b: u8) -> bool {
    (48 <= b <= 57) || b == 44 || b == 46
}

/// End of the run of amount bytes that starts at `start`.
pub open spec fn amount_end(b: Seq<u8>, start: int) -> int
    decreases b.len() - start,
{
    if start >= b.len() || start < 0 {
        start
    } else if is_amount_byte(b[start]) {
        amount_end(b, start + 1)
    } else {
        start
    }
}

/// The characters of an amount with its commas left out.
pub open spec fn without_commas(b: Seq<u8>) -> Seq<char> {
    b.filter(|x: u8| x != 44).map_values(|x: u8| x as char)
}

/// Lowest and highest beat prices taken from text, exclusive, in `10^-8` USD.
pub const BEAT_TEXT_MIN: u64 = 100_000_000_000;
pub const BEAT_TEXT_MAX: u64 = 1_000_000_000_000_000;

/// The amount written after a `$` at byte `i`, when it is a number strictly
/// between 1,000 and 10,000,000 (digits past the eighth decimal dropped).
pub open spec fn dollar_amount_at(b: Seq<u8>, i: int) -> Option<u64> {
    if 0 <= i < b.len() && b[i] == 36 && amount_end(b, i + 1) > i + 1 {
        match decimal_scaled_i64(without_commas(b.subrange(i + 1, amount_end(b, i + 1))), 8) {
            Some(v) => if BEAT_TEXT_MIN < v < BEAT_TEXT_MAX { Some(v as u64) } else { None },
            None => None,
        }
    } else {
        None
    }
}

/// The first such amount at or after byte `i`.
pub open spec fn first_dollar_amount(b: Seq<u8>, i: int) -> Option<u64>
    decreases b.len() - i,
{
    if i >= b.len() || i < 0 {
        None
    } else {
        match dollar_amount_at(b, i) {
            Some(v) => Some(v),
            None => first_dollar_amount(b, i + 1),
        }
    }
}

/// Finds a beat price in market text: the first `$` amount (commas allowed,
/// e.g. `$83,450.50`) between 1,000 and 10,000,000, in `10^-8` USD.
pub fn parse_beat_price_from_text(text: &str) -> (res: Option<u64>)
    ensures
        res == first_dollar_amount(text.spec_bytes(), 0),
{
    let bytes = text.as_bytes();
    let mut i: usize = 0;
    while i < bytes.len()
        invariant
            i <= bytes@.len(),
            bytes@ == text.spec_bytes(),
            first_dollar_amount(bytes@, 0) == first_dollar_amount(bytes@, i as int),
        decreases bytes@.len() - i,
    {
        let found = amount_at(bytes, i);
        if found.is_some() {
            return found;
        }
        i = i + 1;
    }
    None
}

fn amount_at(bytes: &[u8], i: usize) -> (res: Option<u64>)
    requires
        i < bytes@.len(),
    ensures
        res == dollar_amount_at(bytes@, i as int),
{
    if bytes[i] != 36 {
        return None;
    }
    let start = i + 1;
    let mut end = start;
    while end < bytes.len() && ((48 <= bytes[end] && bytes[end] <= 57) || bytes[end] == 44 || bytes[end] == 46)
        invariant
            start <= end <= bytes@.len(),
            amount_end(bytes@, start as int) == amount_end(bytes@, end as int),
        decreases bytes@.len() - end,
    {
        end = end + 1;
    }
    if end == start {
        return None;
    }
    let mut cs: Vec<char> = Vec::new();
    let mut k: usize = start;
    let ghost run = bytes@.subrange(start as int, end as int);
    while k < end
        invariant
            start <= k <= end <= bytes@.len(),
            run == bytes@.subrange(start as int, end as int),
            cs@ == without_commas(run.take(k - start)),
        decreases end - k,
    {
        proof {
            let t = run.take(k + 1 - start);
            assert(t.drop_last() =~= run.take(k - start));
            reveal_with_fuel(Seq::filter, 1);
            assert(t.last() == bytes@[k as int]);
        }
        if bytes[k] != 44 {
            cs.push(bytes[k] as char);
            proof {
                let t = run.take(k + 1 - start);
                assert(t.filter(|x: u8| x != 44) =~= run.take(k - start).filter(|x: u8| x != 44).push(bytes@[k as int]));
                assert(cs@ =~= without_commas(t));
            }
        } else {
            proof {
                let t = run.take(k + 1 - start);
                assert(t.filter(|x: u8| x != 44) =~= run.take(k - start).filter(|x: u8| x != 44));
            }
        }
        k = k + 1;
    }
    assert(run.take(end - start) =~= run);
    let text = string_from_chars(&cs);
    match parse_decimal_scaled(text.as_str(), 8) {
        Some(v) => if 100_000_000_000 < v && v < 1_000_000_000_000_000 { Some(v as u64) } else { None },
        None => None,
    }
}

/// Unix seconds of an RFC 3339 date-time, as chrono reads it.
pub uninterp spec fn rfc3339_seconds(s: Seq<char>) -> Option<i64>;

/// Reads an RFC 3339 date-time to Unix seconds
/// (`chrono::DateTime::parse_from_rfc3339` then `timestamp`); `None` when
/// chrono refuses the text.
#[verifier::external_body]
fn parse_rfc3339(s: &str) -> (res: Option<i64>)
    ensures
        res == rfc3339_seconds(s@),
{
    chrono::DateTime::parse_from_rfc3339(s).ok().map(|dt| dt.timestamp())
}

/// A market entry as the market API lists it, already taken out of JSON.
#[derive(Clone, Debug)]
pub struct RawMarket {
    pub outcomes: Vec<String>,
    pub token_ids: Vec<String>,
    pub end_date: Option<String>,
    /// The top-level `eventStartTime`.
    pub event_start_time: Option<String>,
    /// The first event's `startTime`, used when the former is absent.
    pub first_event_start: Option<String>,
    pub question: Option<String>,
    pub description: Option<String>,
}

/// Index of the first name whose lower-case form contains `word`.
pub open spec fn first_containing(names: Seq<String>, word: Seq<char>) -> Option<int>
    decreases names.len(),
{
    if names.len() == 0 {
        None
    } else if contains_seq(lowercase_of(names[0]@), word) {
        Some(0)
    } else {
        match first_containing(names.drop_first(), word) {
            Some(i) => Some(i + 1),
            None => None,
        }
    }
}

fn position_containing(names: &Vec<String>, word: &str) -> (res: Option<usize>)
    ensures
        res matches Some(i) ==> first_containing(names@, word@) == Some(i as int),
        res is None ==> first_containing(names@, word@) is None,
{
    let wc = str_chars(word);
    let mut i: usize = 0;
    while i < names.len()
        invariant
            i <= names@.len(),
            wc@ == word@,
            forall|k: int| 0 <= k < i ==> !contains_seq(lowercase_of(#[trigger] names@[k]@), word@),
        decreases names@.len() - i,
    {
        let lower = to_lowercase(names[i].as_str());
        let lc = str_chars(lower.as_str());
        if contains_chars(&lc, &wc) {
            proof { lemma_first_containing(names@, word@, i as int); }
            return Some(i);
        }
        i = i + 1;
    }
    proof { lemma_first_containing_none(names@, word@); }
    None
}

proof fn lemma_first_containing(names: Seq<String>, word: Seq<char>, i: int)
    requires
        0 <= i < names.len(),
        contains_seq(lowercase_of(names[i]@), word),
        forall|k: int| 0 <= k < i ==> !contains_seq(lowercase_of(#[trigger] names[k]@), word),
    ensures
        first_containing(names, word) == Some(i),
    decreases i,
{
    if i > 0 {
        let rest = names.drop_first();
        assert forall|k: int| 0 <= k < i - 1 implies !contains_seq(lowercase_of(#[trigger] rest[k]@), word) by {
            assert(rest[k] == names[k + 1]);
        }
        lemma_first_containing(rest, word, i - 1);
        assert(!contains_seq(lowercase_of(names[0]@), word));
    }
}

proof fn lemma_first_containing_none(names: Seq<String>, word: Seq<char>)
    requires
        forall|k: int| 0 <= k < names.len() ==> !contains_seq(lowercase_of(#[trigger] names[k]@), word),
    ensures
        first_containing(names, word) is None,
    decreases names.len(),
{
    if names.len() > 0 {
        let rest = names.drop_first();
        assert forall|k: int| 0 <= k < rest.len() implies !contains_seq(lowercase_of(#[trigger] rest[k]@), word) by {
            assert(rest[k] == names[k + 1]);
        }
        lemma_first_containing_none(rest, word);
        assert(!contains_seq(lowercase_of(names[0]@), word));
    }
}

/// The token at `i`, or empty text when there is none.
pub open spec fn token_at(ids: Seq<String>, i: int) -> Seq<char> {
    if 0 <= i < ids.len() { ids[i]@ } else { Seq::empty() }
}

fn get_or_empty(ids: &Vec<String>, i: usize) -> (res: String)
    ensures
        res@ == token_at(ids@, i as int),
{
    if i < ids.len() {
        ids[i].clone()
    } else {
        String::new()
    }
}

/// The text of an optional string, empty when absent.
pub open spec fn opt_chars(o: Option<String>) -> Seq<char> {
    match o {
        Some(s) => s@,
        None => Seq::<char>::empty(),
    }
}

fn opt_text(o: &Option<String>) -> (res: String)
    ensures
        res@ == opt_chars(*o),
{
    match o {
        Some(s) => s.clone(),
        None => String::new(),
    }
}

/// The side indices: the first outcome naming "up" (else 0) and the first
/// naming "down" (else 1).
pub open spec fn up_index(outcomes: Seq<String>) -> int {
    match first_containing(outcomes, "up"@) {
        Some(i) => i,
        None => 0,
    }
}

pub open spec fn down_index(outcomes: Seq<String>) -> int {
    match first_containing(outcomes, "down"@) {
        Some(i) => i,
        None => 1,
    }
}

/// What is known of a market from its API entry. The slug and bucket start
/// `ts` name it; the close defaults to the end of the bucket and the start
/// of the price range to the bucket start; the question falls back to the
/// description; a beat price is looked for in the question, then in the
/// description.
pub fn market_meta_from_raw(slug: String, ts: i64, interval_secs: u64, raw: &RawMarket) -> (res: MarketMeta)
    requires
        interval_secs <= i64::MAX,
        ts + interval_secs <= i64::MAX,
    ensures
        res.slug == slug,
        res.end_time == (match raw.end_date {
            Some(d) => match rfc3339_seconds(d@) {
                Some(t) => t,
                None => (ts + interval_secs) as i64,
            },
            None => (ts + interval_secs) as i64,
        }),
        res.event_start_time == (match (if raw.event_start_time is Some { raw.event_start_time } else { raw.first_event_start }) {
            Some(d) => match rfc3339_seconds(d@) {
                Some(t) => t,
                None => ts,
            },
            None => ts,
        }),
        res.up_token_id@ == token_at(raw.token_ids@, up_index(raw.outcomes@)),
        res.down_token_id@ == token_at(raw.token_ids@, down_index(raw.outcomes@)),
        res.question@ == (match raw.question {
            Some(q) => q@,
            None => opt_chars(raw.description),
        }),
        res.beat_price == (match first_dollar_amount(vstd::utf8::encode_utf8(res.question@), 0) {
            Some(p) => Some(p),
            None => first_dollar_amount(vstd::utf8::encode_utf8(opt_chars(raw.description)), 0),
        }),
{
    let up_idx: usize = match position_containing(&raw.outcomes, "up") {
        Some(i) => i,
        None => 0,
    };
    let dn_idx: usize = match position_containing(&raw.outcomes, "down") {
        Some(i) => i,
        None => 1,
    };
    let bucket_end: i64 = ts + interval_secs as i64;
    let end_time = match &raw.end_date {
        Some(d) => match parse_rfc3339(d.as_str()) {
            Some(t) => t,
            None => bucket_end,
        },
        None => bucket_end,
    };
    let start_text = match &raw.event_start_time {
        Some(d) => Some(d),
        None => raw.first_event_start.as_ref(),
    };
    let event_start_time = match start_text {
        Some(d) => match parse_rfc3339(d.as_str()) {
            Some(t) => t,
            None => ts,
        },
        None => ts,
    };
    let question = match &raw.question {
        Some(q) => q.clone(),
        None => opt_text(&raw.description),
    };
    let beat_price = match parse_beat_price_from_text(question.as_str()) {
        Some(p) => Some(p),
        None => {
            let desc = opt_text(&raw.description);
            parse_beat_price_from_text(desc.as_str())
        },
    };
    MarketMeta {
        slug,
        end_time,
        event_start_time,
        up_token_id: get_or_empty(&raw.token_ids, up_idx),
        down_token_id: get_or_empty(&raw.token_ids, dn_idx),
        beat_price,
        question,
    }
}

/// An outcome price of at least 0.99 (in millionths) marks the winner.
pub open spec fn is_winning_price(text: Seq<char>) -> bool {
    match decimal_scaled_i64(text, 6) {
        Some(v) => v >= 990_000,
        None => false,
    }
}

/// The side an outcome name stands for: "up" is looked for first.
pub open spec fn side_of_name(name: Seq<char>) -> Option<Outcome> {
    if contains_seq(lowercase_of(name), "up"@) {
        Some(Outcome::Up)
    } else if contains_seq(lowercase_of(name), "down"@) {
        Some(Outcome::Down)
    } else {
        None
    }
}

/// The winner of a resolved market: the first outcome whose price is at
/// least 0.99 and whose name names a side, scanning from `i`.
pub open spec fn winner_from(outcomes: Seq<String>, prices: Seq<String>, i: int) -> Option<Outcome>
    decreases prices.len() - i,
{
    if i < 0 || i >= prices.len() {
        None
    } else if is_winning_price(prices[i]@) && i < outcomes.len() && side_of_name(outcomes[i]@) is Some {
        side_of_name(outcomes[i]@)
    } else {
        winner_from(outcomes, prices, i + 1)
    }
}

/// The platform's resolution of a market: none until it is resolved; then
/// the side of the first outcome priced at 0.99 or more (see `winner_from`).
pub open spec fn resolution_of(resolved: bool, outcomes: Seq<String>, prices: Option<Vec<String>>) -> Option<Outcome> {
    if !resolved {
        None
    } else {
        match prices {
            Some(p) => winner_from(outcomes, p@, 0),
            None => None,
        }
    }
}

fn side_of(name: &str) -> (res: Option<Outcome>)
    ensures
        res == side_of_name(name@),
{
    let lower = to_lowercase(name);
    let lc = str_chars(lower.as_str());
    let up = str_chars("up");
    if contains_chars(&lc, &up) {
        return Some(Outcome::Up);
    }
    let down = str_chars("down");
    if contains_chars(&lc, &down) {
        return Some(Outcome::Down);
    }
    None
}

/// Reads the winner of a market from its API entry (see `resolution_of`).
pub fn market_resolution(resolved: bool, outcomes: &Vec<String>, prices: &Option<Vec<String>>) -> (res: Option<Outcome>)
    ensures
        res == resolution_of(resolved, outcomes@, *prices),
{
    if !resolved {
        return None;
    }
    let ps = match prices {
        Some(p) => p,
        None => return None,
    };
    assert(*prices == Some(*ps));
    let mut i: usize = 0;
    while i < ps.len()
        invariant
            i <= ps@.len(),
            winner_from(outcomes@, ps@, 0) == winner_from(outcomes@, ps@, i as int),
            resolved,
            *prices == Some(*ps),
        decreases ps@.len() - i,
    {
        let winning = match parse_decimal_scaled(ps[i].as_str(), 6) {
            Some(v) => v >= 990_000,
            None => false,
        };
        if winning && i < outcomes.len() {
            let side = side_of(outcomes[i].as_str());
            if side.is_some() {
                return side;
            }
        }
        i = i + 1;
    }
    None
}

/// What to do with the reply to the `attempt`-th lookup (from 0) of
/// `resolve_attempts`.
#[derive(Clone, Copy, Debug, PartialEq, Eq, Structural)]
pub enum LookupStep {
    /// The reply lists the market: take its first entry.
    Take,
    /// Nothing listed: look up the next bucket.
    TryNext,
    /// Nothing listed for either bucket: there is no current market.
    NotFound,
}

/// The first lookup whose reply lists at least one entry is taken; after
/// two empty replies there is no market.
pub fn lookup_step(attempt: usize, listed: usize) -> (res: LookupStep)
    ensures
        listed > 0 ==> res == LookupStep::Take,
        listed == 0 && attempt + 1 < 2 ==> res == LookupStep::TryNext,
        listed == 0 && attempt + 1 >= 2 ==> res == LookupStep::NotFound,
{
    if listed > 0 {
        LookupStep::Take
    } else if attempt < 1 {
        LookupStep::TryNext
    } else {
        LookupStep::NotFound
    }
}

/// The markets to look up, in order: the current bucket, then the one
/// before it; each with its bucket start and slug.
pub fn resolve_attempts(prefix: &str, current_bucket: i64, interval_secs: u64) -> (res: Vec<(i64, String)>)
    requires
        0 < interval_secs <= i64::MAX,
        current_bucket - interval_secs >= i64::MIN,
    ensures
        res@.len() == 2,
        res@[0].0 == current_bucket,
        res@[1].0 == current_bucket - interval_secs,
        forall|i: int| 0 <= i < 2 ==> (#[trigger] res@[i]).1@ == slug_of(prefix@, res@[i].0 as int),
{
    let mut out: Vec<(i64, String)> = Vec::new();
    let prev: i64 = current_bucket - interval_secs as i64;
    out.push((current_bucket, market_slug(prefix, current_bucket)));
    out.push((prev, market_slug(prefix, prev)));
    out
}

} // verus!
