use poly_last_new::pnl::{split_chars, summarize_pnl_log, text_lines};
use poly_last_new::text::str_chars;

const HEADER: &str = "slug,beat_price,end_price,winner,our_outcome,shares,usdc_spent,fill_price,pnl,resolved,executed_at,order_id";

#[test]
fn lines_like_std() {
    for s in ["", "a", "a\n", "a\r\nb", "\n", "a\n\nb\n", "a\r", "x\ry\n"] {
        let mine: Vec<String> = text_lines(s).iter().map(|l| l.iter().collect()).collect();
        let std: Vec<String> = s.lines().map(|l| l.to_string()).collect();
        assert_eq!(mine, std, "{:?}", s);
    }
}

#[test]
fn fields_like_std() {
    for s in ["", "a,b", ",", "a,,b,"] {
        let mine: Vec<String> = split_chars(&str_chars(s), ',').iter().map(|l| l.iter().collect()).collect();
        let std: Vec<String> = s.split(',').map(|l| l.to_string()).collect();
        assert_eq!(mine, std);
    }
}

#[test]
fn summary_of_log() {
    let log = format!(
        "{}\n{}\n{}\nshort,row\n{}\n",
        HEADER,
        "btc-updown-5m-1,83450.00,83525.00,up,up,11.7647,10.0000,0.850000,1.7647,true,2026-04-21T18:20:01,o1",
        "btc-updown-5m-2,83525.00,83500.00,down,up,11.7647,10.0000,0.850000,-10.0000,true,2026-04-21T18:25:01,o2",
        "btc-updown-5m-3,1,2,up,up,1,bad,1,0,true,t,o3",
    );
    let s = summarize_pnl_log(&log);
    assert_eq!(s.rows.len(), 3);
    assert_eq!(s.total_pnl, 1_764_700 - 10_000_000);
    assert_eq!(s.total_spent, 20_000_000);
    assert_eq!(s.wins, 1);
    assert_eq!(s.losses, 2);
    assert_eq!(s.rows[0].slug, "btc-updown-5m-1");
    assert_eq!(s.rows[0].beat_price, 8_345_000_000_000);
    assert_eq!(s.rows[0].end_price, 8_352_500_000_000);
    assert_eq!(s.rows[1].winner, "down");
    assert_eq!(s.rows[1].our_outcome, "up");
    assert_eq!(s.rows[2].usdc_spent, 0);
}

#[test]
fn empty_log_has_no_rows() {
    let s = summarize_pnl_log("");
    assert!(s.rows.is_empty());
    assert_eq!(s.wins + s.losses, 0);
    let s = summarize_pnl_log(HEADER);
    assert!(s.rows.is_empty());
}

#[test]
fn exponent_fields_are_read() {
    let log = format!("{}\ns,1,2,up,up,20,1e1,0.5,1E1,true,t,o\n", HEADER);
    let s = summarize_pnl_log(&log);
    assert_eq!(s.total_spent, 10_000_000);
    assert_eq!(s.total_pnl, 10_000_000);
    assert_eq!(s.wins, 1);
}
