//! Text helpers: characters, decimal rendering and decimal parsing.
use vstd::prelude::*;

verus! {

/// Value of an ASCII decimal digit.
pub open spec fn digit_value(c: char) -> int {
    (c as int) - ('0' as int)
}

pub open spec fn is_digit(c: char) -> bool {
    '0' <= c && c <= '9'
}

/// The character of a digit value `d` (0..=9).
pub open spec fn digit_char(d: int) -> char {
    (d + ('0' as int)) as char
}

/// Decimal digits of a natural number, most significant first, with no
/// leading zeros ("0" for zero).
pub open spec fn dec_digits(n: nat) -> Seq<char>
    decreases n,
{
    if n < 10 {
        seq![digit_char(n as int)]
    } else {
        dec_digits(n / 10).push(digit_char((n % 10) as int))
    }
}

/// Decimal rendering of a signed integer: a minus sign before negative values.
pub open spec fn dec_signed(v: int) -> Seq<char> {
    if v < 0 {
        seq!['-'].add(dec_digits((-v) as nat))
    } else {
        dec_digits(v as nat)
    }
}

/// Appends one character to a string (`String::push`).
#[verifier::external_body]
pub(crate) fn push_char(s: &mut String, c: char)
    ensures
        final(s)@ == old(s)@.push(c),
{
    s.push(c);
}

/// Reversing a sequence with one more element at its end puts that element first.
pub proof fn lemma_reverse_push<A>(s: Seq<A>, x: A)
    ensures
        s.push(x).reverse() == seq![x] + s.reverse(),
{
    assert(s.push(x).reverse() =~= seq![x] + s.reverse());
}

/// The digit character of `d < 10`.
pub fn digit_to_char(d: u64) -> (c: char)
    requires
        d < 10,
    ensures
        c == digit_char(d as int),
        is_digit(c),
        digit_value(c) == d,
{
    let b: u8 = (d as u8) + 48;
    b as char
}

/// Renders `n` in decimal.
pub fn u64_to_decimal(n: u64) -> (res: String)
    ensures
        res@ == dec_digits(n as nat),
{
    // digits, least significant first
    let mut digits: Vec<char> = Vec::new();
    let mut m: u64 = n;
    while m >= 10
        invariant
            dec_digits(n as nat) == dec_digits(m as nat) + digits@.reverse(),
        decreases m,
    {
        let c = digit_to_char(m % 10);
        proof {
            lemma_reverse_push(digits@, c);
            assert(dec_digits(m as nat) == dec_digits((m / 10) as nat).push(c));
            assert(dec_digits(m as nat) + digits@.reverse() =~= dec_digits((m / 10) as nat) + (seq![c] + digits@.reverse()));
        }
        digits.push(c);
        m = m / 10;
    }
    let c = digit_to_char(m);
    proof {
        lemma_reverse_push(digits@, c);
        assert(dec_digits(m as nat) == seq![c]);
    }
    digits.push(c);
    let ghost all = digits@.reverse();
    assert(all == dec_digits(n as nat));
    let mut res = String::new();
    let mut i: usize = digits.len();
    while i > 0
        invariant
            i <= digits.len(),
            all == digits@.reverse(),
            res@ == digits@.subrange(i as int, digits.len() as int).reverse(),
        decreases i,
    {
        i = i - 1;
        proof {
            let tail = digits@.subrange(i + 1, digits.len() as int);
            assert(digits@.subrange(i as int, digits.len() as int) =~= seq![digits@[i as int]] + tail);
            assert((seq![digits@[i as int]] + tail).reverse() =~= tail.reverse().push(digits@[i as int]));
        }
        push_char(&mut res, digits[i]);
    }
    assert(digits@.subrange(0, digits.len() as int) =~= digits@);
    res
}

/// Renders `n` in decimal.
pub fn u128_to_decimal(n: u128) -> (res: String)
    ensures
        res@ == dec_digits(n as nat),
{
    let mut digits: Vec<char> = Vec::new();
    let mut m: u128 = n;
    while m >= 10
        invariant
            dec_digits(n as nat) == dec_digits(m as nat) + digits@.reverse(),
        decreases m,
    {
        let c = digit_to_char((m % 10) as u64);
        proof {
            lemma_reverse_push(digits@, c);
            assert(dec_digits(m as nat) == dec_digits((m / 10) as nat).push(c));
            assert(dec_digits(m as nat) + digits@.reverse() =~= dec_digits((m / 10) as nat) + (seq![c] + digits@.reverse()));
        }
        digits.push(c);
        m = m / 10;
    }
    let c = digit_to_char(m as u64);
    proof {
        lemma_reverse_push(digits@, c);
        assert(dec_digits(m as nat) == seq![c]);
    }
    digits.push(c);
    let ghost all = digits@.reverse();
    assert(all == dec_digits(n as nat));
    let mut res = String::new();
    let mut i: usize = digits.len();
    while i > 0
        invariant
            i <= digits.len(),
            all == digits@.reverse(),
            res@ == digits@.subrange(i as int, digits.len() as int).reverse(),
        decreases i,
    {
        i = i - 1;
        proof {
            let tail = digits@.subrange(i + 1, digits.len() as int);
            assert(digits@.subrange(i as int, digits.len() as int) =~= seq![digits@[i as int]] + tail);
            assert((seq![digits@[i as int]] + tail).reverse() =~= tail.reverse().push(digits@[i as int]));
        }
        push_char(&mut res, digits[i]);
    }
    assert(digits@.subrange(0, digits.len() as int) =~= digits@);
    res
}

/// The characters of a string slice, in order.
pub fn str_chars(s: &str) -> (res: Vec<char>)
    ensures
        res@ == s@,
{
    let n = s.unicode_len();
    let mut res: Vec<char> = Vec::new();
    let mut i: usize = 0;
    while i < n
        invariant
            n == s@.len(),
            i <= n,
            res@ == s@.take(i as int),
        decreases n - i,
    {
        let c = s.get_char(i);
        res.push(c);
        proof {
            assert(s@.take(i + 1) =~= s@.take(i as int).push(c));
        }
        i = i + 1;
    }
    assert(s@.take(n as int) =~= s@);
    res
}

/// A string holding exactly the given characters.
pub fn string_from_chars(cs: &Vec<char>) -> (res: String)
    ensures
        res@ == cs@,
{
    let mut res = String::new();
    let mut i: usize = 0;
    while i < cs.len()
        invariant
            i <= cs.len(),
            res@ == cs@.take(i as int),
        decreases cs.len() - i,
    {
        proof {
            assert(cs@.take(i + 1) =~= cs@.take(i as int).push(cs@[i as int]));
        }
        push_char(&mut res, cs[i]);
        i = i + 1;
    }
    assert(cs@.take(cs.len() as int) =~= cs@);
    res
}

/// Appends the characters of `cs` to `s`.
pub fn push_chars(s: &mut String, cs: &Vec<char>)
    ensures
        final(s)@ == old(s)@ + cs@,
{
    let ghost start = s@;
    let mut i: usize = 0;
    while i < cs.len()
        invariant
            i <= cs.len(),
            s@ == start + cs@.take(i as int),
        decreases cs.len() - i,
    {
        proof {
            assert(start + cs@.take(i + 1) =~= (start + cs@.take(i as int)).push(cs@[i as int]));
        }
        push_char(s, cs[i]);
        i = i + 1;
    }
    assert(cs@.take(cs.len() as int) =~= cs@);
}

pub open spec fn all_digits(s: Seq<char>) -> bool {
    forall|i: int| 0 <= i < s.len() ==> is_digit(#[trigger] s[i])
}

/// The natural number written by a sequence of decimal digits (0 when empty).
pub open spec fn digits_nat(s: Seq<char>) -> nat
    decreases s.len(),
{
    if s.len() == 0 {
        0
    } else {
        digits_nat(s.drop_last()) * 10 + digit_value(s.last()) as nat
    }
}

pub open spec fn pow10(k: nat) -> nat
    decreases k,
{
    if k == 0 {
        1
    } else {
        10 * pow10((k - 1) as nat)
    }
}

/// The first `k` fraction digits of `f`, padded with zeros, read as a number.
pub open spec fn frac_scaled(f: Seq<char>, k: nat) -> nat
    decreases k,
{
    if k == 0 {
        0
    } else {
        frac_scaled(f, (k - 1) as nat) * 10 + (if k - 1 < f.len() {
            digit_value(f[k - 1]) as nat
        } else {
            0
        })
    }
}

/// Index of the first `c` in `s`, or `s.len()` when there is none.
pub open spec fn first_index_of(s: Seq<char>, c: char) -> int
    decreases s.len(),
{
    if s.len() == 0 {
        0
    } else if s[0] == c {
        0
    } else {
        1 + first_index_of(s.drop_first(), c)
    }
}

pub open spec fn sign_len(s: Seq<char>) -> int {
    if s.len() > 0 && (s[0] == '-' || s[0] == '+') {
        1
    } else {
        0
    }
}

pub open spec fn unsigned_body(s: Seq<char>) -> Seq<char> {
    s.skip(sign_len(s))
}

pub open spec fn int_part(b: Seq<char>) -> Seq<char> {
    b.take(first_index_of(b, '.'))
}

pub open spec fn frac_part(b: Seq<char>) -> Seq<char> {
    if first_index_of(b, '.') < b.len() {
        b.skip(first_index_of(b, '.') + 1)
    } else {
        Seq::empty()
    }
}

/// Index of the first exponent marker (`e` or `E`), or the length.
pub open spec fn exp_marker(b: Seq<char>) -> int
    decreases b.len(),
{
    if b.len() == 0 {
        0
    } else if b[0] == 'e' || b[0] == 'E' {
        0
    } else {
        1 + exp_marker(b.drop_first())
    }
}

/// The part of an unsigned number before its exponent.
pub open spec fn mantissa_of(b: Seq<char>) -> Seq<char> {
    b.take(exp_marker(b))
}

/// An exponent: an optional sign, then at least one digit.
pub open spec fn exp_value(t: Seq<char>) -> Option<int> {
    let u = unsigned_body(t);
    if u.len() > 0 && all_digits(u) {
        Some(if t[0] == '-' { -(digits_nat(u) as int) } else { digits_nat(u) as int })
    } else {
        None
    }
}

/// The exponent of an unsigned number: 0 without a marker; after one, the
/// exponent text must be well formed.
pub open spec fn exponent_of(b: Seq<char>) -> Option<int> {
    if exp_marker(b) >= b.len() {
        Some(0)
    } else {
        exp_value(b.skip(exp_marker(b) + 1))
    }
}

/// A decimal number as Rust's float parser reads one, leaving out `inf`,
/// `infinity` and `nan` (no integer stands for them): an optional sign,
/// digits with an optional `.` (at least one digit in all), then optionally
/// `e` or `E`, an optional sign and at least one digit.
pub open spec fn is_decimal_literal(s: Seq<char>) -> bool {
    let b = unsigned_body(s);
    let m = mantissa_of(b);
    &&& all_digits(int_part(m))
    &&& all_digits(frac_part(m))
    &&& int_part(m).len() + frac_part(m).len() > 0
    &&& exponent_of(b) is Some
}

/// The value of a decimal number in units of `10^-k`, truncated toward
/// zero: its digits (integer part, then fraction) read up to the `k`-th
/// place after the point as the exponent moves it (padded with zeros).
pub open spec fn decimal_scaled(s: Seq<char>, k: nat) -> Option<int> {
    if is_decimal_literal(s) {
        let b = unsigned_body(s);
        let m = mantissa_of(b);
        let r = int_part(m).len() + k + exponent_of(b)->0;
        let v = if r <= 0 { 0 } else { frac_scaled(int_part(m) + frac_part(m), r as nat) };
        Some(if s.len() > 0 && s[0] == '-' { -v } else { v as int })
    } else {
        None
    }
}

/// `decimal_scaled` restricted to what an `i64` holds.
pub open spec fn decimal_scaled_i64(s: Seq<char>, k: nat) -> Option<int> {
    match decimal_scaled(s, k) {
        Some(v) => if i64::MIN <= v <= i64::MAX { Some(v) } else { None },
        None => None,
    }
}

proof fn lemma_first_index_bounds(s: Seq<char>, c: char)
    ensures
        0 <= first_index_of(s, c) <= s.len(),
        forall|i: int| 0 <= i < first_index_of(s, c) ==> s[i] != c,
        first_index_of(s, c) < s.len() ==> s[first_index_of(s, c)] == c,
    decreases s.len(),
{
    if s.len() > 0 && s[0] != c {
        lemma_first_index_bounds(s.drop_first(), c);
        assert forall|i: int| 0 <= i < first_index_of(s, c) implies s[i] != c by {
            if i > 0 {
                assert(s[i] == s.drop_first()[i - 1]);
            }
        }
    }
}

proof fn lemma_digits_prefix_le(s: Seq<char>, i: int)
    requires
        0 <= i <= s.len(),
    ensures
        digits_nat(s.take(i)) <= digits_nat(s),
    decreases s.len(),
{
    if i < s.len() {
        assert(s.drop_last().take(i) =~= s.take(i));
        lemma_digits_prefix_le(s.drop_last(), i);
    } else {
        assert(s.take(i) =~= s);
    }
}

/// Reads `cs[from..to]` as decimal digits. `None` when one of them is not a
/// digit or the number exceeds `cap`.
pub(crate) fn digits_capped(cs: &Vec<char>, from: usize, to: usize, cap: u128) -> (res: Option<u128>)
    requires
        from <= to <= cs.len(),
        cap <= 0x1_0000_0000_0000_0000,
    ensures
        res matches Some(v) ==> all_digits(cs@.subrange(from as int, to as int)) && v == digits_nat(
            cs@.subrange(from as int, to as int),
        ) && v <= cap,
        res is None ==> !all_digits(cs@.subrange(from as int, to as int)) || digits_nat(
            cs@.subrange(from as int, to as int),
        ) > cap,
{
    let ghost sub = cs@.subrange(from as int, to as int);
    let mut acc: u128 = 0;
    let mut i: usize = from;
    while i < to
        invariant
            from <= i <= to <= cs.len(),
            sub == cs@.subrange(from as int, to as int),
            cap <= 0x1_0000_0000_0000_0000,
            all_digits(sub.take(i - from)),
            acc == digits_nat(sub.take(i - from)),
            acc <= cap,
        decreases to - i,
    {
        let c = cs[i];
        if !('0' <= c && c <= '9') {
            assert(sub[i - from] == c);
            assert(!is_digit(sub[i - from]));
            return None;
        }
        proof {
            let t = sub.take(i + 1 - from);
            assert(t.drop_last() =~= sub.take(i - from));
            assert(t.last() == c);
            assert forall|j: int| 0 <= j < (i + 1 - from) implies is_digit(#[trigger] t[j]) by {
                if j < i - from {
                    assert(t[j] == sub.take(i - from)[j]);
                }
            }
        }
        let d: u128 = ((c as u32) - 48) as u128;
        acc = acc * 10 + d;
        if acc > cap {
            proof {
                if all_digits(sub) {
                    lemma_digits_prefix_le(sub, i + 1 - from);
                }
            }
            return None;
        }
        i = i + 1;
    }
    assert(sub.take(to - from) =~= sub);
    Some(acc)
}

/// Whether `cs[from..to]` is all decimal digits.
fn all_digit_chars(cs: &Vec<char>, from: usize, to: usize) -> (res: bool)
    requires
        from <= to <= cs.len(),
    ensures
        res == all_digits(cs@.subrange(from as int, to as int)),
{
    let ghost sub = cs@.subrange(from as int, to as int);
    let mut j: usize = from;
    while j < to
        invariant
            from <= j <= to <= cs.len(),
            sub == cs@.subrange(from as int, to as int),
            forall|t: int| 0 <= t < j - from ==> is_digit(#[trigger] sub[t]),
        decreases to - j,
    {
        if !('0' <= cs[j] && cs[j] <= '9') {
            assert(sub[j - from] == cs[j as int]);
            return false;
        }
        j = j + 1;
    }
    true
}

/// Exponents beyond this size are all alike: they push every digit out of
/// range, one way or the other.
pub open spec fn exp_cap() -> int {
    0x1_0000_0000_0000_0000_0000_0000
}

proof fn lemma_digits_nat_step(u: Seq<char>, j: int)
    requires
        0 <= j < u.len(),
    ensures
        digits_nat(u.take(j + 1)) == digits_nat(u.take(j)) * 10 + digit_value(u[j]) as nat,
{
    assert(u.take(j + 1).drop_last() =~= u.take(j));
}

/// Reads the exponent `cs[from..to]` (see `exp_value`), holding its size at
/// just past `exp_cap()`.
#[verifier::loop_isolation(false)]
fn exponent_capped(cs: &Vec<char>, from: usize, to: usize) -> (res: Option<i128>)
    requires
        from <= to <= cs.len(),
    ensures
        res is None <==> exp_value(cs@.subrange(from as int, to as int)) is None,
        res matches Some(v) ==> ({
            let x = exp_value(cs@.subrange(from as int, to as int))->0;
            &&& (-exp_cap() <= x <= exp_cap() ==> v == x)
            &&& (x > exp_cap() ==> v == exp_cap() + 1)
            &&& (x < -exp_cap() ==> v == -exp_cap() - 1)
        }),
{
    let ghost t = cs@.subrange(from as int, to as int);
    let neg = from < to && cs[from] == '-';
    let ds: usize = if from < to && (cs[from] == '-' || cs[from] == '+') { from + 1 } else { from };
    let ghost u = cs@.subrange(ds as int, to as int);
    assert(u =~= unsigned_body(t));
    if ds == to {
        return None;
    }
    let cap: u128 = 0x1_0000_0000_0000_0000_0000_0000;
    let mut acc: u128 = 0;
    let mut j: usize = ds;
    while j < to
        invariant
            ds <= j <= to <= cs.len(),
            u == cs@.subrange(ds as int, to as int),
            cap == exp_cap(),
            all_digits(u.take(j - ds)),
            digits_nat(u.take(j - ds)) <= cap ==> acc == digits_nat(u.take(j - ds)),
            digits_nat(u.take(j - ds)) > cap ==> acc == cap + 1,
        decreases to - j,
    {
        let c = cs[j];
        if !('0' <= c && c <= '9') {
            assert(u[j - ds] == c);
            assert(!is_digit(u[j - ds]));
            return None;
        }
        proof {
            lemma_digits_nat_step(u, j - ds);
            assert(u[j - ds] == c);
            assert forall|q: int| 0 <= q < j + 1 - ds implies is_digit(#[trigger] u.take(j + 1 - ds)[q]) by {
                if q < j - ds {
                    assert(u.take(j + 1 - ds)[q] == u.take(j - ds)[q]);
                }
            }
        }
        let d: u128 = ((c as u32) - 48) as u128;
        if acc <= cap {
            acc = acc * 10 + d;
            if acc > cap {
                acc = cap + 1;
            }
        }
        j = j + 1;
    }
    assert(u.take(to - ds) =~= u);
    let v: i128 = if neg { -(acc as i128) } else { acc as i128 };
    Some(v)
}

proof fn lemma_frac_scaled_mono(d: Seq<char>, i: nat, j: nat)
    requires
        i <= j,
    ensures
        frac_scaled(d, i) <= frac_scaled(d, j),
    decreases j,
{
    if i < j {
        lemma_frac_scaled_mono(d, i, (j - 1) as nat);
    }
}

proof fn lemma_frac_scaled_zero_tail(d: Seq<char>, i: nat, j: nat)
    requires
        i <= j,
        i >= d.len(),
        frac_scaled(d, i) == 0,
    ensures
        frac_scaled(d, j) == 0,
    decreases j,
{
    if i < j {
        lemma_frac_scaled_zero_tail(d, i, (j - 1) as nat);
    }
}

proof fn lemma_frac_scaled_zero(d: Seq<char>, n: nat)
    requires
        forall|q: int| 0 <= q < d.len() ==> digit_value(#[trigger] d[q]) == 0,
    ensures
        frac_scaled(d, n) == 0,
    decreases n,
{
    if n > 0 {
        lemma_frac_scaled_zero(d, (n - 1) as nat);
    }
}

proof fn lemma_frac_scaled_nonzero(d: Seq<char>, n: nat, i: int)
    requires
        0 <= i < d.len(),
        i < n,
        all_digits(d),
        digit_value(d[i]) > 0,
    ensures
        frac_scaled(d, n) >= pow10((n - 1 - i) as nat),
    decreases n,
{
    if n == i + 1 {
        assert(pow10(0) == 1);
    } else {
        lemma_frac_scaled_nonzero(d, (n - 1) as nat, i);
        if n - 1 < d.len() {
            assert(is_digit(d[n - 1]));
        }
        assert(pow10((n - 1 - i) as nat) == 10 * pow10((n - 2 - i) as nat));
    }
}

proof fn lemma_exp_marker_bounds(s: Seq<char>)
    ensures
        0 <= exp_marker(s) <= s.len(),
        forall|i: int| 0 <= i < exp_marker(s) ==> s[i] != 'e' && s[i] != 'E',
        exp_marker(s) < s.len() ==> (s[exp_marker(s)] == 'e' || s[exp_marker(s)] == 'E'),
    decreases s.len(),
{
    if s.len() > 0 && s[0] != 'e' && s[0] != 'E' {
        lemma_exp_marker_bounds(s.drop_first());
        assert forall|i: int| 0 <= i < exp_marker(s) implies s[i] != 'e' && s[i] != 'E' by {
            if i > 0 {
                assert(s[i] == s.drop_first()[i - 1]);
            }
        }
    }
}

/// The digits of a number: those of `cs[start..start + ip_len]`, then those
/// of `cs[frac_start..frac_start + fp_len]`.
pub open spec fn joined_digits(cs: Seq<char>, start: int, ip_len: int, frac_start: int, fp_len: int) -> Seq<char> {
    cs.subrange(start, start + ip_len) + cs.subrange(frac_start, frac_start + fp_len)
}

fn joined_digit(cs: &Vec<char>, start: usize, ip_len: usize, frac_start: usize, fp_len: usize, q: usize) -> (c: char)
    requires
        start + ip_len <= cs.len(),
        frac_start + fp_len <= cs.len(),
        q < ip_len + fp_len,
    ensures
        c == joined_digits(cs@, start as int, ip_len as int, frac_start as int, fp_len as int)[q as int],
{
    let ghost d = joined_digits(cs@, start as int, ip_len as int, frac_start as int, fp_len as int);
    if q < ip_len {
        assert(d[q as int] == cs@.subrange(start as int, (start + ip_len) as int)[q as int]);
        cs[start + q]
    } else {
        assert(d[q as int] == cs@.subrange(frac_start as int, (frac_start + fp_len) as int)[q - ip_len]);
        cs[frac_start + (q - ip_len)]
    }
}

/// Whether every digit of the joined digits is 0.
fn joined_all_zero(cs: &Vec<char>, start: usize, ip_len: usize, frac_start: usize, fp_len: usize) -> (res: bool)
    requires
        start + ip_len <= cs.len(),
        frac_start + fp_len <= cs.len(),
        ip_len + fp_len <= cs.len(),
        all_digits(joined_digits(cs@, start as int, ip_len as int, frac_start as int, fp_len as int)),
    ensures
        ({
            let d = joined_digits(cs@, start as int, ip_len as int, frac_start as int, fp_len as int);
            &&& res ==> forall|t: int| 0 <= t < d.len() ==> digit_value(#[trigger] d[t]) == 0
            &&& !res ==> exists|t: int| 0 <= t < d.len() && digit_value(#[trigger] d[t]) > 0
        }),
{
    let ghost d = joined_digits(cs@, start as int, ip_len as int, frac_start as int, fp_len as int);
    let dlen = ip_len + fp_len;
    let mut q: usize = 0;
    while q < dlen
        invariant
            q <= dlen,
            dlen == d.len(),
            d == joined_digits(cs@, start as int, ip_len as int, frac_start as int, fp_len as int),
            start + ip_len <= cs.len(),
            frac_start + fp_len <= cs.len(),
            all_digits(d),
            forall|t: int| 0 <= t < q ==> digit_value(#[trigger] d[t]) == 0,
        decreases dlen - q,
    {
        let c = joined_digit(cs, start, ip_len, frac_start, fp_len, q);
        if c != '0' {
            assert(is_digit(d[q as int]));
            assert(digit_value(d[q as int]) > 0);
            return false;
        }
        q = q + 1;
    }
    true
}

/// The first `r` joined digits, padded with zeros, as a number, when it is
/// at most `2^63`; `None` when it is larger.
fn joined_value_capped(cs: &Vec<char>, start: usize, ip_len: usize, frac_start: usize, fp_len: usize, r: u128) -> (res: Option<u128>)
    requires
        start + ip_len <= cs.len(),
        frac_start + fp_len <= cs.len(),
        ip_len + fp_len <= cs.len(),
        all_digits(joined_digits(cs@, start as int, ip_len as int, frac_start as int, fp_len as int)),
    ensures
        ({
            let v = frac_scaled(joined_digits(cs@, start as int, ip_len as int, frac_start as int, fp_len as int), r as nat);
            &&& res matches Some(a) ==> a == v && a <= 0x8000_0000_0000_0000
            &&& res is None ==> v > 0x8000_0000_0000_0000
        }),
{
    let ghost d = joined_digits(cs@, start as int, ip_len as int, frac_start as int, fp_len as int);
    let dlen: usize = ip_len + fp_len;
    let limit: u128 = 0x8000_0000_0000_0000;
    let mut acc: u128 = 0;
    let mut i: u128 = 0;
    while i < r
        invariant
            i <= r,
            dlen == d.len(),
            d == joined_digits(cs@, start as int, ip_len as int, frac_start as int, fp_len as int),
            start + ip_len <= cs.len(),
            frac_start + fp_len <= cs.len(),
            all_digits(d),
            limit == 0x8000_0000_0000_0000u128,
            acc == frac_scaled(d, i as nat),
            acc <= limit,
        decreases r - i,
    {
        if i >= dlen as u128 && acc == 0 {
            proof {
                lemma_frac_scaled_zero_tail(d, i as nat, r as nat);
            }
            i = r;
        } else {
            let dv: u128 = if i < dlen as u128 {
                let c = joined_digit(cs, start, ip_len, frac_start, fp_len, i as usize);
                assert(is_digit(d[i as int]));
                ((c as u32) - 48) as u128
            } else {
                0
            };
            acc = acc * 10 + dv;
            if acc > limit {
                proof {
                    lemma_frac_scaled_mono(d, (i + 1) as nat, r as nat);
                }
                return None;
            }
            i = i + 1;
        }
    }
    Some(acc)
}

/// Finds, in `cs` from `start` on, the exponent marker and the first `.`
/// before it.
fn locate_parts(cs: &Vec<char>, start: usize) -> (res: (usize, usize))
    requires
        start <= cs.len(),
    ensures
        ({
            let b = cs@.skip(start as int);
            let (em, dot) = res;
            &&& start <= dot <= em <= cs.len()
            &&& em - start == exp_marker(b)
            &&& dot - start == first_index_of(mantissa_of(b), '.')
            &&& mantissa_of(b) == cs@.subrange(start as int, em as int)
        }),
{
    let ghost b = cs@.skip(start as int);
    let n = cs.len();
    let mut em: usize = start;
    while em < n && cs[em] != 'e' && cs[em] != 'E'
        invariant
            start <= em <= n,
            n == cs@.len(),
            forall|j: int| start <= j < em ==> cs@[j] != 'e' && cs@[j] != 'E',
        decreases n - em,
    {
        em = em + 1;
    }
    proof {
        lemma_exp_marker_bounds(b);
        let mi = exp_marker(b);
        if mi < em - start {
            assert(b[mi] == cs@[start + mi]);
        }
        if em - start < mi {
            assert(b[em - start] == cs@[em as int]);
        }
        assert(mi == em - start);
    }
    let ghost m = mantissa_of(b);
    assert(m =~= cs@.subrange(start as int, em as int));
    let mut dot: usize = start;
    while dot < em && cs[dot] != '.'
        invariant
            start <= dot <= em <= n,
            n == cs@.len(),
            forall|j: int| start <= j < dot ==> cs@[j] != '.',
        decreases em - dot,
    {
        dot = dot + 1;
    }
    proof {
        lemma_first_index_bounds(m, '.');
        let fi = first_index_of(m, '.');
        if fi < dot - start {
            assert(m[fi] == cs@[start + fi]);
        }
        if dot - start < fi {
            assert(m[dot - start] == cs@[dot as int]);
        }
    }
    (em, dot)
}

/// With a digit that is not 0 and at least 19 places to spare past the
/// last digit, the number read is beyond `2^63`.
proof fn lemma_far_past_nonzero(d: Seq<char>, r: int)
    requires
        all_digits(d),
        r >= d.len() + 19,
        exists|t: int| 0 <= t < d.len() && digit_value(#[trigger] d[t]) > 0,
    ensures
        frac_scaled(d, r as nat) > 0x8000_0000_0000_0000,
{
    let q = choose|t: int| 0 <= t < d.len() && digit_value(#[trigger] d[t]) > 0;
    lemma_frac_scaled_nonzero(d, r as nat, q);
    lemma_pow10_mono(19, (r - 1 - q) as nat);
    reveal_with_fuel(pow10, 20);
    assert(pow10(19) == 10_000_000_000_000_000_000);
}

/// Whether `s` is a decimal number (see `is_decimal_literal`), whatever
/// its size.
pub fn is_decimal_number(s: &str) -> (res: bool)
    ensures
        res == is_decimal_literal(s@),
{
    let cs = str_chars(s);
    let n = cs.len();
    let ghost sq = s@;
    let start: usize = if n > 0 && (cs[0] == '-' || cs[0] == '+') { 1 } else { 0 };
    let ghost b = sq.skip(start as int);
    assert(b == unsigned_body(sq));
    let (em, dot) = locate_parts(&cs, start);
    let ghost m = mantissa_of(b);
    let ghost ip = int_part(m);
    let ghost fp = frac_part(m);
    assert(ip =~= sq.subrange(start as int, dot as int));
    let frac_start: usize = if dot < em { dot + 1 } else { em };
    assert(fp =~= sq.subrange(frac_start as int, em as int));
    if (dot - start) + (em - frac_start) == 0 {
        return false;
    }
    if !all_digit_chars(&cs, start, dot) || !all_digit_chars(&cs, frac_start, em) {
        return false;
    }
    if em < n {
        assert(b.skip(exp_marker(b) + 1) =~= sq.subrange(em + 1, n as int));
        exponent_capped(&cs, em + 1, n).is_some()
    } else {
        true
    }
}

/// Parses a decimal number (see `is_decimal_literal`) into an integer
/// number of `10^-k` units, truncated toward zero. `None` when the text is
/// not such a number or the value does not fit an `i64`.
#[verifier::rlimit(60)]
pub fn parse_decimal_scaled(s: &str, k: u32) -> (res: Option<i64>)
    requires
        k <= 18,
    ensures
        res matches Some(v) ==> decimal_scaled_i64(s@, k as nat) == Some(v as int),
        res is None ==> decimal_scaled_i64(s@, k as nat) is None,
{
    let cs = str_chars(s);
    let n = cs.len();
    let ghost sq = s@;
    let neg = n > 0 && cs[0] == '-';
    let start: usize = if n > 0 && (cs[0] == '-' || cs[0] == '+') { 1 } else { 0 };
    let ghost b = sq.skip(start as int);
    assert(b == unsigned_body(sq));
    let (em, dot) = locate_parts(&cs, start);
    let ghost m = mantissa_of(b);
    let ghost ip = int_part(m);
    let ghost fp = frac_part(m);
    assert(ip =~= sq.subrange(start as int, dot as int));
    let frac_start: usize = if dot < em { dot + 1 } else { em };
    assert(fp =~= sq.subrange(frac_start as int, em as int));
    let ip_len: usize = dot - start;
    let fp_len: usize = em - frac_start;
    if ip_len + fp_len == 0 {
        return None;
    }
    if !all_digit_chars(&cs, start, dot) || !all_digit_chars(&cs, frac_start, em) {
        return None;
    }
    let e: i128 = if em < n {
        assert(b.skip(exp_marker(b) + 1) =~= sq.subrange(em + 1, n as int));
        match exponent_capped(&cs, em + 1, n) {
            Some(v) => v,
            None => return None,
        }
    } else {
        0
    };
    let ghost d = ip + fp;
    let ghost x = exponent_of(b)->0;
    assert(is_decimal_literal(sq));
    let ghost r_spec = ip.len() + k + x;
    let ghost v_spec: nat = if r_spec <= 0 { 0 } else { frac_scaled(d, r_spec as nat) };
    assert(decimal_scaled(sq, k as nat) == Some(if neg { -v_spec } else { v_spec as int }));
    assert(d =~= joined_digits(sq, start as int, ip_len as int, frac_start as int, fp_len as int));
    assert(all_digits(d)) by {
        assert forall|q: int| 0 <= q < d.len() implies is_digit(#[trigger] d[q]) by {
            if q < ip.len() {
                assert(d[q] == ip[q]);
            } else {
                assert(d[q] == fp[q - ip.len()]);
            }
        }
    }
    let cap: i128 = 0x1_0000_0000_0000_0000_0000_0000;
    if e > cap {
        // every nonzero digit lands at least 19 places up: too large
        if joined_all_zero(&cs, start, ip_len, frac_start, fp_len) {
            proof {
                lemma_frac_scaled_zero(d, r_spec as nat);
            }
            return Some(0);
        }
        proof {
            assert(r_spec >= d.len() + 19);
            lemma_far_past_nonzero(d, r_spec);
        }
        return None;
    }
    if e < -cap {
        assert(r_spec < 0);
        return Some(0);
    }
    assert(e == x);
    let r: i128 = ip_len as i128 + k as i128 + e;
    if r <= 0 {
        return Some(0);
    }
    let acc: u128 = match joined_value_capped(&cs, start, ip_len, frac_start, fp_len, r as u128) {
        Some(a) => a,
        None => return None,
    };
    if neg {
        let v: i128 = -(acc as i128);
        Some(v as i64)
    } else {
        if acc >= 0x8000_0000_0000_0000u128 {
            return None;
        }
        Some(acc as i64)
    }
}

proof fn lemma_pow10_mono(a: nat, b: nat)
    requires
        a <= b,
    ensures
        pow10(a) <= pow10(b),
    decreases b,
{
    if a < b {
        lemma_pow10_mono(a, (b - 1) as nat);
    }
}

/// Whether two character vectors hold the same characters.
pub fn chars_eq(a: &Vec<char>, b: &Vec<char>) -> (r: bool)
    ensures
        r == (a@ == b@),
{
    if a.len() != b.len() {
        return false;
    }
    let mut i: usize = 0;
    while i < a.len()
        invariant
            a.len() == b.len(),
            i <= a.len(),
            forall|j: int| 0 <= j < i ==> a@[j] == b@[j],
        decreases a.len() - i,
    {
        if a[i] != b[i] {
            return false;
        }
        i = i + 1;
    }
    assert(a@ =~= b@);
    true
}

/// Whether two strings hold the same characters.
pub fn str_eq(a: &str, b: &str) -> (r: bool)
    ensures
        r == (a@ == b@),
{
    let ac = str_chars(a);
    let bc = str_chars(b);
    chars_eq(&ac, &bc)
}

/// Renders a signed integer in decimal.
pub fn i64_to_decimal(v: i64) -> (res: String)
    ensures
        res@ == dec_signed(v as int),
{
    if v < 0 {
        let mag: u64 = if v == i64::MIN {
            0x8000_0000_0000_0000u64
        } else {
            (-v) as u64
        };
        let digits = u64_to_decimal(mag);
        let mut res = String::new();
        push_char(&mut res, '-');
        let ds = str_chars(digits.as_str());
        push_chars(&mut res, &ds);
        assert(res@ =~= seq!['-'].add(dec_digits((-v) as nat)));
        res
    } else {
        u64_to_decimal(v as u64)
    }
}

/// An unsigned integer literal: an optional `+` and at least one digit.
pub open spec fn unsigned_value(s: Seq<char>) -> Option<nat> {
    let b = if s.len() > 0 && s[0] == '+' { s.drop_first() } else { s };
    if b.len() > 0 && all_digits(b) {
        Some(digits_nat(b))
    } else {
        None
    }
}

/// Parses an unsigned integer literal; `None` when the text is not one or
/// the value exceeds `usize::MAX`.
pub fn parse_usize(s: &str) -> (res: Option<usize>)
    ensures
        res matches Some(v) ==> unsigned_value(s@) == Some(v as nat),
        res is None ==> (unsigned_value(s@) matches Some(v) ==> v > usize::MAX),
{
    let cs = str_chars(s);
    let n = cs.len();
    let start: usize = if n > 0 && cs[0] == '+' { 1 } else { 0 };
    assert(cs@.subrange(start as int, n as int) =~= (if s@.len() > 0 && s@[0] == '+' { s@.drop_first() } else { s@ }));
    if start == n {
        return None;
    }
    match digits_capped(&cs, start, n, usize::MAX as u128) {
        Some(v) => Some(v as usize),
        None => None,
    }
}

/// `needle` occurs in `hay` at position `i`.
pub open spec fn occurs_at(hay: Seq<char>, needle: Seq<char>, i: int) -> bool {
    0 <= i && i + needle.len() <= hay.len() && hay.subrange(i, i + needle.len()) == needle
}

/// `needle` occurs somewhere in `hay`.
pub open spec fn contains_seq(hay: Seq<char>, needle: Seq<char>) -> bool {
    exists|i: int| occurs_at(hay, needle, i)
}

/// Whether `needle` occurs in `hay`.
pub fn contains_chars(hay: &Vec<char>, needle: &Vec<char>) -> (res: bool)
    ensures
        res == contains_seq(hay@, needle@),
{
    let n = needle.len();
    if n == 0 {
        assert(hay@.subrange(0, 0) =~= needle@);
        assert(occurs_at(hay@, needle@, 0));
        return true;
    }
    if n > hay.len() {
        assert forall|i: int| !occurs_at(hay@, needle@, i) by {}
        return false;
    }
    let mut i: usize = 0;
    let last: usize = hay.len() - n;
    while i <= last
        invariant
            n == needle@.len(),
            n <= hay@.len(),
            last == hay@.len() - n,
            n >= 1,
            last < usize::MAX,
            i <= last + 1,
            forall|k: int| 0 <= k < i ==> !occurs_at(hay@, needle@, k),
        decreases last + 1 - i,
    {
        let mut j: usize = 0;
        let mut ok = true;
        while j < n && ok
            invariant
                n == needle@.len(),
                i + n <= hay.len(),
                j <= n,
                forall|t: int| 0 <= t < j ==> hay@[i + t] == needle@[t],
                !ok ==> j < n && hay@[i + j] != needle@[j as int],
            decreases n - j + (if ok { 1int } else { 0int }),
        {
            if hay[i + j] != needle[j] {
                ok = false;
            } else {
                j = j + 1;
            }
        }
        if ok {
            assert(hay@.subrange(i as int, i + n) =~= needle@);
            assert(occurs_at(hay@, needle@, i as int));
            return true;
        }
        assert(hay@.subrange(i as int, i + n)[j as int] != needle@[j as int]);
        i = i + 1;
    }
    assert forall|k: int| !occurs_at(hay@, needle@, k) by {
        if 0 <= k && k + n <= hay@.len() {
            assert(k < i);
        }
    }
    false
}

/// The lower-case form of a text, as the standard library computes it.
pub uninterp spec fn lowercase_of(s: Seq<char>) -> Seq<char>;

/// ASCII lower-casing: `A`-`Z` become `a`-`z`.
pub open spec fn ascii_lower(s: Seq<char>) -> Seq<char> {
    s.map_values(|c: char| if 'A' <= c && c <= 'Z' { ((c as int) + 32) as char } else { c })
}

/// The lower-case form of a string (`str::to_lowercase`). For ASCII text it
/// maps `A`-`Z` to `a`-`z` and leaves the rest; for other text it follows
/// Unicode's lowercase mapping, which is named here and not spelled out.
#[verifier::external_body]
pub(crate) fn to_lowercase(s: &str) -> (res: String)
    ensures
        res@ == lowercase_of(s@),
        crate::text::is_ascii_text(s@) ==> res@ == ascii_lower(s@),
{
    s.to_lowercase()
}

/// Every character is ASCII.
pub open spec fn is_ascii_text(s: Seq<char>) -> bool {
    forall|i: int| 0 <= i < s.len() ==> (#[trigger] s[i] as int) < 128
}

} // verus!
