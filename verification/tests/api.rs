use poly_last_new::api::{lookup_step, LookupStep, market_meta_from_raw, market_resolution, parse_beat_price_from_text, resolve_attempts, url_encode, RawMarket};
use poly_last_new::types::Outcome;

#[test]
fn query_text_is_percent_encoded() {
    assert_eq!(url_encode("btc-updown-5m-1776795300"), "btc-updown-5m-1776795300");
    assert_eq!(url_encode("a b&c"), "a%20b%26c");
    assert_eq!(url_encode("A~z_0.9"), "A~z_0.9");
    assert_eq!(url_encode("é"), "%C3%A9");
    assert_eq!(url_encode(""), "");
}

#[test]
fn beat_price_found_in_text() {
    assert_eq!(parse_beat_price_from_text("Will BTC be above $83,450 at noon?"), Some(8_345_000_000_000));
    assert_eq!(parse_beat_price_from_text("price $83450.50 here"), Some(8_345_050_000_000));
    assert_eq!(parse_beat_price_from_text("win $5 or $1,000.01"), Some(100_001_000_000));
    assert_eq!(parse_beat_price_from_text("exactly $1000"), None);
    assert_eq!(parse_beat_price_from_text("too much $10,000,000"), None);
    assert_eq!(parse_beat_price_from_text("no dollars"), None);
    assert_eq!(parse_beat_price_from_text("$"), None);
    assert_eq!(parse_beat_price_from_text("bad $1.2.3 then $2,000"), Some(200_000_000_000));
}

fn raw() -> RawMarket {
    RawMarket {
        outcomes: vec!["Up".to_string(), "Down".to_string()],
        token_ids: vec!["111".to_string(), "222".to_string()],
        end_date: Some("2026-04-21T18:20:00Z".to_string()),
        event_start_time: Some("2026-04-21T18:15:00Z".to_string()),
        first_event_start: None,
        question: Some("Bitcoin Up or Down?".to_string()),
        description: Some("Resolves against $84,000.25".to_string()),
    }
}

#[test]
fn market_meta_from_entry() {
    let m = market_meta_from_raw("btc-updown-5m-1776795300".to_string(), 1_776_795_300, 300, &raw());
    assert_eq!(m.slug, "btc-updown-5m-1776795300");
    assert_eq!(m.end_time, 1_776_795_600);
    assert_eq!(m.event_start_time, 1_776_795_300);
    assert_eq!(m.up_token_id, "111");
    assert_eq!(m.down_token_id, "222");
    assert_eq!(m.question, "Bitcoin Up or Down?");
    assert_eq!(m.beat_price, Some(8_400_025_000_000));
}

#[test]
fn market_meta_defaults() {
    let r = RawMarket {
        outcomes: vec!["DOWN".to_string(), "UP".to_string()],
        token_ids: vec!["9".to_string()],
        end_date: Some("not a date".to_string()),
        event_start_time: None,
        first_event_start: Some("2026-04-21T18:15:00+00:00".to_string()),
        question: None,
        description: None,
    };
    let m = market_meta_from_raw("s".to_string(), 1000, 300, &r);
    assert_eq!(m.end_time, 1300);
    assert_eq!(m.event_start_time, 1_776_795_300);
    assert_eq!(m.up_token_id, "");
    assert_eq!(m.down_token_id, "9");
    assert_eq!(m.question, "");
    assert_eq!(m.beat_price, None);
}

#[test]
fn resolution_reads_winning_outcome() {
    let outcomes = vec!["Up".to_string(), "Down".to_string()];
    assert_eq!(market_resolution(true, &outcomes, &Some(vec!["0".to_string(), "1".to_string()])), Some(Outcome::Down));
    assert_eq!(market_resolution(true, &outcomes, &Some(vec!["0.995".to_string(), "0.005".to_string()])), Some(Outcome::Up));
    assert_eq!(market_resolution(false, &outcomes, &Some(vec!["1".to_string(), "0".to_string()])), None);
    assert_eq!(market_resolution(true, &outcomes, &Some(vec!["0.5".to_string(), "0.5".to_string()])), None);
    assert_eq!(market_resolution(true, &outcomes, &None), None);
    assert_eq!(market_resolution(true, &vec!["YES".to_string()], &Some(vec!["1".to_string()])), None);
    assert_eq!(market_resolution(true, &vec!["Going UP".to_string()], &Some(vec!["1".to_string()])), Some(Outcome::Up));
}

#[test]
fn lookups_try_current_then_previous_bucket() {
    let a = resolve_attempts("btc-updown-5m", 1_776_795_300, 300);
    assert_eq!(a, vec![(1_776_795_300, "btc-updown-5m-1776795300".to_string()), (1_776_795_000, "btc-updown-5m-1776795000".to_string())]);
}

#[test]
fn first_listed_lookup_is_taken() {
    assert_eq!(lookup_step(0, 1), LookupStep::Take);
    assert_eq!(lookup_step(0, 0), LookupStep::TryNext);
    assert_eq!(lookup_step(1, 2), LookupStep::Take);
    assert_eq!(lookup_step(1, 0), LookupStep::NotFound);
}
