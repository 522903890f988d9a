use poly_last_new::chainlink::{
    ds_latest_path, ds_sign, ds_timestamp_path, hmac_sha256_hex, parse_aggregator_answer, parse_ds_price,
    parse_ds_report_price, sha256_hex, to_hex, FeedPriceError,
};

#[test]
fn sha256_of_empty_body() {
    assert_eq!(sha256_hex(b""), "e3b0c44298fc1c149afbf4c8996fb92427ae41e4649b934ca495991b7852b855");
}

#[test]
fn hmac_known_vector() {
    assert_eq!(
        hmac_sha256_hex(b"Jefe", b"what do ya want for nothing?"),
        "5bdcc146bf60754e6a042426089575c75a003f089d2739839dec58b964ec3843"
    );
}

#[test]
fn hex_is_lower_case() {
    assert_eq!(to_hex(&vec![0x00, 0xab, 0x7f]), "00ab7f");
}

#[test]
fn report_paths() {
    assert_eq!(ds_latest_path("abc"), "/api/v1/reports/latest?feedID=abc");
    assert_eq!(ds_timestamp_path("abc", 1_776_795_300), "/api/v1/reports?feedID=abc&timestamp=1776795300");
}

#[test]
fn requests_are_signed() {
    let a = ds_sign("key1", "secret", "/api/v1/reports/latest?feedID=abc", 1_700_000_000_000);
    assert_eq!(a.timestamp_ms, "1700000000000");
    assert_eq!(a.signature, "dd4cae711e8f402b12146644ae411aa349da58527b2758fb83e22bcdecbe49c7");
}

#[test]
fn report_prices() {
    // 83450.5 * 10^18
    assert_eq!(parse_ds_price("000000000011abdc54da4d3f5a0000"), Ok(8_345_050_000_000));
    assert_eq!(parse_ds_report_price("0x0x000011abdc54da4d3f5a0000"), Ok(8_345_050_000_000));
    assert_eq!(parse_ds_price("0000"), Err(FeedPriceError::ZeroPrice));
    assert_eq!(parse_ds_price(""), Err(FeedPriceError::ZeroPrice));
    assert_eq!(parse_ds_price("12zz"), Err(FeedPriceError::BadHex));
    // only the last 32 digits count
    assert_eq!(parse_ds_price("f00000000000000000000000000000000"), Ok(0));
}

#[test]
fn aggregator_answers() {
    let word0 = "0".repeat(63) + "1";
    let answer = format!("{:064x}", 8_345_000_000_000u64);
    let rest = "0".repeat(192);
    let result = format!("0x{}{}{}", word0, answer, rest);
    assert_eq!(parse_aggregator_answer(&result), Ok(8_345_000_000_000));
    assert_eq!(parse_aggregator_answer("0x1234"), Err(FeedPriceError::TooShort));
    let zero = format!("0x{}{}", word0, "0".repeat(64));
    assert_eq!(parse_aggregator_answer(&zero), Err(FeedPriceError::ZeroPrice));
    let big = format!("0x{}{}", word0, "f".repeat(64));
    assert_eq!(parse_aggregator_answer(&big), Err(FeedPriceError::BadHex));
    let huge = format!("0x{}{}{}", word0, "0".repeat(32), "f".repeat(32));
    assert_eq!(parse_aggregator_answer(&huge), Err(FeedPriceError::TooLarge));
}
