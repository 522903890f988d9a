//! Oracle report handling: request signing for the data-stream API and the
//! price encodings of its reports and of the on-chain aggregator.
use vstd::prelude::*;
use vstd::string::StringSliceAdditionalSpecFns;
use crate::text::{dec_signed, i64_to_decimal, push_char, push_chars, str_chars};
use hmac::Mac;
use sha2::Digest;

verus! {

/// SHA-256 of a byte string.
pub uninterp spec fn sha256_of(data: Seq<u8>) -> Seq<u8>;

/// HMAC-SHA-256 of `data` under `key`.
pub uninterp spec fn hmac_sha256_of(key: Seq<u8>, data: Seq<u8>) -> Seq<u8>;

/// SHA-256 digest of `data` (`sha2::Sha256::digest`): 32 bytes.
#[verifier::external_body]
fn sha256_digest(data: &[u8]) -> (res: Vec<u8>)
    ensures
        res@ == sha256_of(data@),
        res@.len() == 32,
{
    sha2::Sha256::digest(data).to_vec()
}

/// HMAC-SHA-256 of `data` under `key` (`hmac::Hmac::<Sha256>`: keyed with
/// `new_from_slice`, which takes keys of any length, fed with `update`, read
/// with `finalize`): 32 bytes.
#[verifier::external_body]
fn hmac_sha256(key: &[u8], data: &[u8]) -> (res: Vec<u8>)
    ensures
        res@ == hmac_sha256_of(key@, data@),
        res@.len() == 32,
{
    let mut mac = hmac::Hmac::<sha2::Sha256>::new_from_slice(key).expect("HMAC takes keys of any length");
    mac.update(data);
    mac.finalize().into_bytes().to_vec()
}

/// Lower-case hex digit of a value below 16.
pub open spec fn hex_lower(v: int) -> char {
    if v < 10 { (v + 48) as char } else { (v + 87) as char }
}

/// Two lower-case hex digits per byte.
pub open spec fn hex_text(bytes: Seq<u8>) -> Seq<char>
    decreases bytes.len(),
{
    if bytes.len() == 0 {
        Seq::empty()
    } else {
        hex_text(bytes.drop_last()) + seq![hex_lower((bytes.last() / 16) as int), hex_lower((bytes.last() % 16) as int)]
    }
}

fn hex_lower_char(v: u8) -> (c: char)
    requires
        v < 16,
    ensures
        c == hex_lower(v as int),
{
    if v < 10 {
        (v + 48) as char
    } else {
        (v + 87) as char
    }
}

/// Lower-case hex text of a byte string.
pub fn to_hex(bytes: &Vec<u8>) -> (res: String)
    ensures
        res@ == hex_text(bytes@),
{
    let mut out = String::new();
    let mut i: usize = 0;
    while i < bytes.len()
        invariant
            i <= bytes@.len(),
            out@ == hex_text(bytes@.take(i as int)),
        decreases bytes@.len() - i,
    {
        let b = bytes[i];
        proof {
            assert(bytes@.take(i + 1).drop_last() =~= bytes@.take(i as int));
        }
        let ghost prev = out@;
        push_char(&mut out, hex_lower_char(b / 16));
        push_char(&mut out, hex_lower_char(b % 16));
        assert(out@ =~= prev + seq![hex_lower((b / 16) as int), hex_lower((b % 16) as int)]);
        i = i + 1;
    }
    assert(bytes@.take(i as int) =~= bytes@);
    out
}

/// Hex text of the SHA-256 digest of `data`.
pub fn sha256_hex(data: &[u8]) -> (res: String)
    ensures
        res@ == hex_text(sha256_of(data@)),
        res@.len() == 64,
{
    let d = sha256_digest(data);
    let h = to_hex(&d);
    proof { lemma_hex_text_len(d@); }
    h
}

/// Hex text of the HMAC-SHA-256 of `data` under `key`.
pub fn hmac_sha256_hex(key: &[u8], data: &[u8]) -> (res: String)
    ensures
        res@ == hex_text(hmac_sha256_of(key@, data@)),
        res@.len() == 64,
{
    let d = hmac_sha256(key, data);
    let h = to_hex(&d);
    proof { lemma_hex_text_len(d@); }
    h
}

proof fn lemma_hex_text_len(b: Seq<u8>)
    ensures
        hex_text(b).len() == 2 * b.len(),
    decreases b.len(),
{
    if b.len() > 0 {
        lemma_hex_text_len(b.drop_last());
    }
}

/// The request path of the newest report of a feed.
pub fn ds_latest_path(feed_id: &str) -> (res: String)
    ensures
        res@ == "/api/v1/reports/latest?feedID="@ + feed_id@,
{
    let mut p = "/api/v1/reports/latest?feedID=".to_owned();
    let f = str_chars(feed_id);
    push_chars(&mut p, &f);
    p
}

/// The request path of a feed's report at Unix second `ts`.
pub fn ds_timestamp_path(feed_id: &str, ts: i64) -> (res: String)
    ensures
        res@ == "/api/v1/reports?feedID="@ + feed_id@ + "&timestamp="@ + dec_signed(ts as int),
{
    let mut p = "/api/v1/reports?feedID=".to_owned();
    let f = str_chars(feed_id);
    push_chars(&mut p, &f);
    let amp = str_chars("&timestamp=");
    push_chars(&mut p, &amp);
    let t = i64_to_decimal(ts);
    let tc = str_chars(t.as_str());
    push_chars(&mut p, &tc);
    p
}

/// The text a data-stream request signs:
/// `GET {path} {body hash} {key} {timestamp in ms}`.
pub open spec fn string_to_sign(path: Seq<char>, body_hash: Seq<char>, key: Seq<char>, ts_ms: Seq<char>) -> Seq<char> {
    "GET "@ + path + " "@ + body_hash + " "@ + key + " "@ + ts_ms
}

/// Authentication of a data-stream request.
pub struct DsAuth {
    /// The request time in milliseconds, as sent.
    pub timestamp_ms: String,
    /// Hex HMAC-SHA-256 of the signed text under the secret.
    pub signature: String,
}

/// Signs a GET of `path` at `ts_ms` (Unix milliseconds): the body hash is
/// that of the empty body, and the signature the HMAC of
/// `string_to_sign(..)` under the secret.
pub fn ds_sign(key: &str, secret: &str, path: &str, ts_ms: i64) -> (res: DsAuth)
    ensures
        res.timestamp_ms@ == dec_signed(ts_ms as int),
        ({
            let empty: Seq<u8> = Seq::empty();
            let text = string_to_sign(path@, hex_text(sha256_of(empty)), key@, dec_signed(ts_ms as int));
            res.signature@ == hex_text(hmac_sha256_of(secret.spec_bytes(), vstd::utf8::encode_utf8(text)))
        }),
{
    let ts_text = i64_to_decimal(ts_ms);
    let empty: Vec<u8> = Vec::new();
    let body_hash = sha256_hex(empty.as_slice());
    let mut text = "GET ".to_owned();
    let pc = str_chars(path);
    push_chars(&mut text, &pc);
    push_char(&mut text, ' ');
    let hc = str_chars(body_hash.as_str());
    push_chars(&mut text, &hc);
    push_char(&mut text, ' ');
    let kc = str_chars(key);
    push_chars(&mut text, &kc);
    push_char(&mut text, ' ');
    let tc = str_chars(ts_text.as_str());
    push_chars(&mut text, &tc);
    proof {
        reveal_strlit(" ");
        assert(empty@ =~= Seq::<u8>::empty());
        assert(text@ =~= string_to_sign(path@, hex_text(sha256_of(Seq::<u8>::empty())), key@, dec_signed(ts_ms as int)));
    }
    let signature = hmac_sha256_hex(secret.as_bytes(), text.as_str().as_bytes());
    DsAuth { timestamp_ms: ts_text, signature }
}

/// Value of an ASCII hex digit byte (either case).
pub open spec fn hex_byte(b: u8) -> Option<nat> {
    if 48 <= b <= 57 {
        Some((b - 48) as nat)
    } else if 97 <= b <= 102 {
        Some((b - 87) as nat)
    } else if 65 <= b <= 70 {
        Some((b - 55) as nat)
    } else {
        None
    }
}

pub open spec fn all_hex(s: Seq<u8>) -> bool {
    forall|i: int| 0 <= i < s.len() ==> hex_byte(#[trigger] s[i]) is Some
}

/// The number written by hex digit bytes (0 when empty).
pub open spec fn hex_nat(s: Seq<u8>) -> nat
    decreases s.len(),
{
    if s.len() == 0 {
        0
    } else {
        hex_nat(s.drop_last()) * 16 + hex_byte(s.last()).unwrap()
    }
}

/// How `u128::from_str_radix(_, 16)` reads bytes: an optional `+`, then at
/// least one hex digit; the value must fit 128 bits.
pub open spec fn radix16_u128(s: Seq<u8>) -> Option<nat> {
    let b = if s.len() > 0 && s[0] == 43 { s.drop_first() } else { s };
    if b.len() > 0 && all_hex(b) && hex_nat(b) <= u128::MAX {
        Some(hex_nat(b))
    } else {
        None
    }
}

/// Number of leading bytes equal to `x`.
pub open spec fn lead_count(s: Seq<u8>, x: u8) -> nat
    decreases s.len(),
{
    if s.len() > 0 && s[0] == x {
        1 + lead_count(s.drop_first(), x)
    } else {
        0
    }
}

/// The bytes after every leading `0x`.
pub open spec fn strip_0x(s: Seq<u8>) -> Seq<u8>
    decreases s.len(),
{
    if s.len() >= 2 && s[0] == 48 && s[1] == 120 {
        strip_0x(s.skip(2))
    } else {
        s
    }
}

/// Why an oracle price could not be read.
#[derive(Clone, Copy, Debug, PartialEq, Eq, Structural)]
pub enum FeedPriceError {
    ZeroPrice,
    TooShort,
    BadHex,
    /// Larger than a `u64` of `10^-8` USD units.
    TooLarge,
}

/// A data-stream report price: hex of an integer scaled by `10^18`. Leading
/// zeros are dropped; all zeros is a zero price; of longer text only the
/// last 32 bytes count. The result is in `10^-8` USD (the scale divided by
/// `10^10`, rounded down).
pub open spec fn ds_price_of(hex: Seq<u8>) -> Result<u64, FeedPriceError> {
    let t = hex.skip(lead_count(hex, 48) as int);
    if t.len() == 0 {
        Err(FeedPriceError::ZeroPrice)
    } else {
        let r = if t.len() > 32 { t.skip(t.len() - 32) } else { t };
        match radix16_u128(r) {
            None => Err(FeedPriceError::BadHex),
            Some(v) => if v / 10_000_000_000 > u64::MAX {
                Err(FeedPriceError::TooLarge)
            } else {
                Ok((v / 10_000_000_000) as u64)
            },
        }
    }
}

/// The aggregator's answer: after every leading `0x`, at least 128 hex
/// bytes; the second 32-byte word (bytes 64..128) is the answer in `10^-8`
/// USD, which must not be zero.
pub open spec fn aggregator_answer_of(result: Seq<u8>) -> Result<u64, FeedPriceError> {
    let h = strip_0x(result);
    if h.len() < 128 {
        Err(FeedPriceError::TooShort)
    } else {
        match radix16_u128(h.subrange(64, 128)) {
            None => Err(FeedPriceError::BadHex),
            Some(v) => if v == 0 {
                Err(FeedPriceError::ZeroPrice)
            } else if v > u64::MAX {
                Err(FeedPriceError::TooLarge)
            } else {
                Ok(v as u64)
            },
        }
    }
}

proof fn lemma_hex_prefix_le(s: Seq<u8>, i: int)
    requires
        0 <= i <= s.len(),
        all_hex(s),
    ensures
        hex_nat(s.take(i)) <= hex_nat(s),
    decreases s.len(),
{
    if i < s.len() {
        assert(s.drop_last().take(i) =~= s.take(i));
        lemma_hex_prefix_le(s.drop_last(), i);
    } else {
        assert(s.take(i) =~= s);
    }
}

/// Reads `b[from..to]` the way `u128::from_str_radix(_, 16)` does.
fn parse_radix16(b: &[u8], from: usize, to: usize) -> (res: Option<u128>)
    requires
        from <= to <= b@.len(),
    ensures
        res matches Some(v) ==> radix16_u128(b@.subrange(from as int, to as int)) == Some(v as nat),
        res is None ==> radix16_u128(b@.subrange(from as int, to as int)) is None,
{
    let ghost s = b@.subrange(from as int, to as int);
    let start: usize = if from < to && b[from] == 43 { from + 1 } else { from };
    let ghost body = b@.subrange(start as int, to as int);
    assert(body =~= (if s.len() > 0 && s[0] == 43 { s.drop_first() } else { s }));
    if start == to {
        return None;
    }
    let mut acc: u128 = 0;
    let mut i: usize = start;
    while i < to
        invariant
            start <= i <= to <= b@.len(),
            start < to,
            body == b@.subrange(start as int, to as int),
            s == b@.subrange(from as int, to as int),
            body == (if s.len() > 0 && s[0] == 43 { s.drop_first() } else { s }),
            all_hex(body.take(i - start)),
            acc == hex_nat(body.take(i - start)),
        decreases to - i,
    {
        let c = b[i];
        let d: u128 = if 48 <= c && c <= 57 {
            (c - 48) as u128
        } else if 97 <= c && c <= 102 {
            (c - 87) as u128
        } else if 65 <= c && c <= 70 {
            (c - 55) as u128
        } else {
            assert(body[i - start] == c);
            assert(hex_byte(body[i - start]) is None);
            return None;
        };
        proof {
            let t = body.take(i + 1 - start);
            assert(t.drop_last() =~= body.take(i - start));
            assert(t.last() == c);
            assert forall|j: int| 0 <= j < (i + 1 - start) implies hex_byte(#[trigger] t[j]) is Some by {
                if j < i - start {
                    assert(t[j] == body.take(i - start)[j]);
                }
            }
        }
        if acc > (0xffff_ffff_ffff_ffff_ffff_ffff_ffff_ffffu128 - d) / 16 {
            proof {
                assert(hex_nat(body.take(i + 1 - start)) > u128::MAX);
                if all_hex(body) {
                    lemma_hex_prefix_le(body, i + 1 - start);
                }
            }
            return None;
        }
        acc = acc * 16 + d;
        i = i + 1;
    }
    assert(body.take(to - start) =~= body);
    Some(acc)
}

fn ds_price_from(b: &[u8], start: usize) -> (res: Result<u64, FeedPriceError>)
    requires
        start <= b@.len(),
    ensures
        res == ds_price_of(b@.skip(start as int)),
{
    let ghost h = b@.skip(start as int);
    let n = b.len();
    let mut z: usize = start;
    assert(h.skip(0) =~= h);
    while z < n && b[z] == 48
        invariant
            start <= z <= n,
            n == b@.len(),
            h == b@.skip(start as int),
            lead_count(h, 48) == (z - start) + lead_count(h.skip(z - start), 48),
        decreases n - z,
    {
        assert(h.skip(z - start).drop_first() =~= h.skip(z + 1 - start));
        z = z + 1;
    }
    proof {
        if z < n {
            assert(h.skip(z - start)[0] == b@[z as int]);
        }
        assert(lead_count(h, 48) == z - start);
        assert(h.skip(z - start) =~= b@.skip(z as int));
    }
    if z == n {
        return Err(FeedPriceError::ZeroPrice);
    }
    let from: usize = if n - z > 32 { n - 32 } else { z };
    proof {
        let t = h.skip(lead_count(h, 48) as int);
        let r = if t.len() > 32 { t.skip(t.len() - 32) } else { t };
        assert(r =~= b@.subrange(from as int, n as int));
    }
    match parse_radix16(b, from, n) {
        None => Err(FeedPriceError::BadHex),
        Some(v) => {
            let q: u128 = v / 10_000_000_000;
            if q > 0xffff_ffff_ffff_ffffu128 {
                Err(FeedPriceError::TooLarge)
            } else {
                Ok(q as u64)
            }
        },
    }
}

/// Reads a data-stream report price (see `ds_price_of`) from hex text.
pub fn parse_ds_price(hex: &str) -> (res: Result<u64, FeedPriceError>)
    requires
        hex.spec_bytes().len() - lead_count(hex.spec_bytes(), 48) > 32 ==> vstd::utf8::is_char_boundary(
            hex.spec_bytes(),
            hex.spec_bytes().len() - 32,
        ),
    ensures
        res == ds_price_of(hex.spec_bytes()),
{
    let b = hex.as_bytes();
    assert(b@.skip(0) =~= b@);
    ds_price_from(b, 0)
}

/// Reads the `report.price` field of a data-stream reply: every leading
/// `0x` is dropped, then the hex is read as `ds_price_of` says.
pub fn parse_ds_report_price(field: &str) -> (res: Result<u64, FeedPriceError>)
    requires
        ({
            let h = strip_0x(field.spec_bytes());
            h.len() - lead_count(h, 48) > 32 ==> vstd::utf8::is_char_boundary(
                field.spec_bytes(),
                field.spec_bytes().len() - 32,
            )
        }),
    ensures
        res == ds_price_of(strip_0x(field.spec_bytes())),
{
    let b = field.as_bytes();
    let k = skip_0x(b);
    ds_price_from(b, k)
}

fn skip_0x(b: &[u8]) -> (res: usize)
    ensures
        res <= b@.len(),
        b@.skip(res as int) == strip_0x(b@),
{
    let mut i: usize = 0;
    assert(b@.skip(0) =~= b@);
    while b.len() >= 2 && i <= b.len() - 2 && b[i] == 48 && b[i + 1] == 120
        invariant
            i <= b@.len(),
            strip_0x(b@) == strip_0x(b@.skip(i as int)),
        decreases b@.len() - i,
    {
        assert(b@.skip(i as int).skip(2) =~= b@.skip(i + 2));
        i = i + 2;
    }
    i
}

/// Reads the aggregator's answer (see `aggregator_answer_of`) from the
/// `result` text of its reply.
pub fn parse_aggregator_answer(result: &str) -> (res: Result<u64, FeedPriceError>)
    requires
        strip_0x(result.spec_bytes()).len() >= 128 ==> ({
            let k = result.spec_bytes().len() - strip_0x(result.spec_bytes()).len();
            &&& vstd::utf8::is_char_boundary(result.spec_bytes(), k + 64)
            &&& vstd::utf8::is_char_boundary(result.spec_bytes(), k + 128)
        }),
    ensures
        res == aggregator_answer_of(result.spec_bytes()),
{
    let b = result.as_bytes();
    let k = skip_0x(b);
    if b.len() - k < 128 {
        return Err(FeedPriceError::TooShort);
    }
    assert(strip_0x(b@).subrange(64, 128) =~= b@.subrange(k + 64, k + 128));
    match parse_radix16(b, k + 64, k + 128) {
        None => Err(FeedPriceError::BadHex),
        Some(v) => {
            if v == 0 {
                Err(FeedPriceError::ZeroPrice)
            } else if v > 0xffff_ffff_ffff_ffffu128 {
                Err(FeedPriceError::TooLarge)
            } else {
                Ok(v as u64)
            }
        },
    }
}

} // verus!
