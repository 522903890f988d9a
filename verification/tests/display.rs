use poly_last_new::display::{pad_l, pad_r, time_left, time_left_at, trade_csv_path, truncate, wl};

#[test]
fn padding() {
    assert_eq!(pad_r("Price", 8), "Price   ");
    assert_eq!(pad_l("Size", 10), "      Size");
    assert_eq!(pad_r("toolong", 3), "toolong");
    assert_eq!(pad_l("é", 3), "  é");
}

#[test]
fn screen_lines_erase_to_end() {
    let mut b = String::from("x");
    wl(&mut b, "line");
    assert_eq!(b, "xline\x1B[K\n");
}

#[test]
fn truncation_by_bytes() {
    assert_eq!(truncate("btc-updown-5m-1776795300", 44), "btc-updown-5m-1776795300");
    assert_eq!(truncate("abcdef", 3), "abc");
}

#[test]
fn time_left_text() {
    assert_eq!(time_left_at(100, 100), "ENDED");
    assert_eq!(time_left_at(100, 200), "ENDED");
    assert_eq!(time_left_at(400, 100), "05:00");
    assert_eq!(time_left_at(165, 100), "01:05");
    assert_eq!(time_left_at(100 + 6000 + 7, 100), "100:07");
    assert_eq!(time_left(0), "ENDED");
}

#[test]
fn trade_log_file_names() {
    assert_eq!(trade_csv_path("btc-updown-5m-1776795300"), "data/btc-updown-5m-1776795300_trades.csv");
    assert_eq!(trade_csv_path("a/b c"), "data/a_b_c_trades.csv");
    assert_eq!(trade_csv_path("é_1"), "data/é_1_trades.csv");
}
