//! Layout helpers for the terminal view and file names.
use vstd::prelude::*;
use vstd::string::StringSliceAdditionalSpecFns;
use crate::text::{dec_digits, push_char, push_chars, str_chars, u64_to_decimal};

verus! {

/// `n` spaces.
pub open spec fn spaces(n: nat) -> Seq<char> {
    Seq::new(n, |i: int| ' ')
}

/// How many characters padding adds to reach `width`.
pub open spec fn pad_count(len: nat, width: nat) -> nat {
    if len < width { (width - len) as nat } else { 0 }
}

fn push_spaces(s: &mut String, n: usize)
    ensures
        final(s)@ == old(s)@ + spaces(n as nat),
{
    let ghost start = s@;
    let mut i: usize = 0;
    while i < n
        invariant
            i <= n,
            s@ == start + spaces(i as nat),
        decreases n - i,
    {
        push_char(s, ' ');
        assert(start + spaces((i + 1) as nat) =~= (start + spaces(i as nat)).push(' '));
        i = i + 1;
    }
}

/// Left-aligns `s` in a field of `width` characters.
pub fn pad_r(s: &str, width: usize) -> (res: String)
    ensures
        res@ == s@ + spaces(pad_count(s@.len(), width as nat)),
{
    let cs = str_chars(s);
    let mut out = String::new();
    push_chars(&mut out, &cs);
    let n: usize = if cs.len() < width { width - cs.len() } else { 0 };
    push_spaces(&mut out, n);
    out
}

/// Right-aligns `s` in a field of `width` characters.
pub fn pad_l(s: &str, width: usize) -> (res: String)
    ensures
        res@ == spaces(pad_count(s@.len(), width as nat)) + s@,
{
    let cs = str_chars(s);
    let mut out = String::new();
    let n: usize = if cs.len() < width { width - cs.len() } else { 0 };
    push_spaces(&mut out, n);
    push_chars(&mut out, &cs);
    out
}

/// The end of a screen line: erase to the end of the line, then a newline.
pub open spec fn line_end() -> Seq<char> {
    seq!['\x1b', '[', 'K', '\n']
}

/// Appends a screen line: the text, an erase-to-end-of-line code and a
/// newline.
pub fn wl(buf: &mut String, line: &str)
    ensures
        final(buf)@ == old(buf)@ + line@ + line_end(),
{
    let cs = str_chars(line);
    push_chars(buf, &cs);
    push_char(buf, '\x1b');
    push_char(buf, '[');
    push_char(buf, 'K');
    push_char(buf, '\n');
    assert(final(buf)@ =~= old(buf)@ + line@ + line_end());
}

/// The first `max` bytes of `s` (all of it when shorter).
pub fn truncate(s: &str, max: usize) -> (res: &str)
    requires
        s.spec_bytes().len() > max ==> vstd::utf8::is_char_boundary(s.spec_bytes(), max as int),
    ensures
        s.spec_bytes().len() <= max ==> res@ == s@,
        s.spec_bytes().len() > max ==> res.spec_bytes() == s.spec_bytes().subrange(0, max as int),
{
    if s.as_bytes().len() <= max {
        s
    } else {
        let parts = s.split_at(max);
        assert(parts.0.spec_bytes() =~= s.spec_bytes().subrange(0, max as int));
        parts.0
    }
}

/// A number of at least two digits, zero-padded.
pub open spec fn two_digits(n: nat) -> Seq<char> {
    if n < 10 { seq!['0'] + dec_digits(n) } else { dec_digits(n) }
}

/// Time left until `end_time` at `now`: `ENDED` once reached, else
/// minutes and seconds as `MM:SS`.
pub open spec fn time_left_text(end_time: int, now: int) -> Seq<char> {
    let diff = end_time - now;
    if diff <= 0 {
        "ENDED"@
    } else {
        two_digits((diff / 60) as nat) + seq![':'] + two_digits((diff % 60) as nat)
    }
}

fn push_two_digits(s: &mut String, n: u64)
    ensures
        final(s)@ == old(s)@ + two_digits(n as nat),
{
    if n < 10 {
        push_char(s, '0');
    }
    let d = u64_to_decimal(n);
    let dc = str_chars(d.as_str());
    push_chars(s, &dc);
    proof {
        if n < 10 {
            assert(final(s)@ =~= old(s)@ + (seq!['0'] + dec_digits(n as nat)));
        }
    }
}

/// Renders the time left until `end_time` (see `time_left_text`).
pub fn time_left_at(end_time: i64, now: i64) -> (res: String)
    ensures
        res@ == time_left_text(end_time as int, now as int),
{
    let diff: i128 = end_time as i128 - now as i128;
    if diff <= 0 {
        return "ENDED".to_owned();
    }
    let mins: u64 = (diff / 60) as u64;
    let secs: u64 = (diff % 60) as u64;
    let mut out = String::new();
    push_two_digits(&mut out, mins);
    push_char(&mut out, ':');
    push_two_digits(&mut out, secs);
    assert(out@ =~= two_digits(mins as nat) + seq![':'] + two_digits(secs as nat));
    out
}

/// Time left until `end_time` on the UTC clock.
pub fn time_left(end_time: i64) -> (res: String)
    ensures
        exists|now: i64| res@ == time_left_text(end_time as int, now as int),
{
    let now = crate::types::utc_now_secs();
    time_left_at(end_time, now)
}

/// Whether a character is alphanumeric in Unicode's sense.
pub uninterp spec fn is_alphanumeric_char(c: char) -> bool;

/// `char::is_alphanumeric`: alphabetic or numeric per Unicode; for ASCII
/// that is exactly the letters and digits.
#[verifier::external_body]
fn char_is_alphanumeric(c: char) -> (res: bool)
    ensures
        res == is_alphanumeric_char(c),
        (c as int) < 128 ==> (res <==> (('a' <= c && c <= 'z') || ('A' <= c && c <= 'Z') || ('0' <= c && c <= '9'))),
{
    c.is_alphanumeric()
}

/// A slug made safe for a file name: alphanumerics, `-` and `_` kept, every
/// other character replaced by `_`.
pub open spec fn safe_name(slug: Seq<char>) -> Seq<char> {
    slug.map_values(|c: char| if is_alphanumeric_char(c) || c == '-' || c == '_' { c } else { '_' })
}

/// The trade log file of a market: `data/{safe slug}_trades.csv`.
pub fn trade_csv_path(slug: &str) -> (res: String)
    ensures
        res@ == "data/"@ + safe_name(slug@) + "_trades.csv"@,
{
    let cs = str_chars(slug);
    let mut safe: Vec<char> = Vec::new();
    let mut i: usize = 0;
    while i < cs.len()
        invariant
            i <= cs@.len(),
            cs@ == slug@,
            safe@ == safe_name(slug@.take(i as int)),
        decreases cs@.len() - i,
    {
        let c = cs[i];
        let keep = char_is_alphanumeric(c) || c == '-' || c == '_';
        safe.push(if keep { c } else { '_' });
        assert(safe_name(slug@.take(i + 1)) =~= safe_name(slug@.take(i as int)).push(if keep { c } else { '_' }));
        i = i + 1;
    }
    assert(slug@.take(i as int) =~= slug@);
    let mut out = "data/".to_owned();
    push_chars(&mut out, &safe);
    let tail = str_chars("_trades.csv");
    push_chars(&mut out, &tail);
    out
}

} // verus!
