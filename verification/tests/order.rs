use poly_last_new::order::{
    check_order_reply, fill_amounts, format_cents, gcd, plan_fok_order, planned_cost, settlement_seen, settlement_step, FillFailure, SettlementStep,
    FokOrder, OrderRejection, TestExecutor, paper_fill, PaperFillError,
};
use poly_last_new::types::{BuyParams, Outcome};

#[test]
fn gcd_examples() {
    assert_eq!(gcd(85, 100), 5);
    assert_eq!(gcd(100, 85), 5);
    assert_eq!(gcd(97, 100), 1);
    assert_eq!(gcd(50, 100), 50);
    assert_eq!(gcd(0, 100), 100);
    assert_eq!(gcd(7, 0), 7);
}

#[test]
fn fok_order_aligns_to_whole_cents() {
    // 11.764705 shares at 0.85 ask + 0.02 buffer = 0.87: step 100, so 11.00 shares
    let o = plan_fok_order(11_764_705, 850_000, 20_000).unwrap();
    assert_eq!(o, FokOrder { size_cents: 1100, price_cents: 87 });
    assert_eq!((o.size_cents * o.price_cents) % 100, 0);
    // 0.50 price: step 2 hundredths
    let o = plan_fok_order(20_031_000, 480_000, 20_000).unwrap();
    assert_eq!(o, FokOrder { size_cents: 2002, price_cents: 50 });
}

#[test]
fn fok_price_is_clamped_and_rounded() {
    let o = plan_fok_order(500_000_000, 995_000, 20_000).unwrap();
    assert_eq!(o.price_cents, 99);
    let o = plan_fok_order(500_000_000, 1_000, 0).unwrap();
    assert_eq!(o.price_cents, 1);
    // 0.855 rounds half up to 0.86
    let o = plan_fok_order(500_000_000, 855_000, 0).unwrap();
    assert_eq!(o.price_cents, 86);
    // a negative buffer lowers the price
    let o = plan_fok_order(500_000_000, 900_000, -50_000).unwrap();
    assert_eq!(o.price_cents, 85);
}

#[test]
fn fok_rejects_tiny_and_small_orders() {
    assert_eq!(plan_fok_order(9_999, 500_000, 0), Err(OrderRejection::SharesTooSmall));
    // 0.03 shares at 0.37: step 100 hundredths, nothing left
    assert_eq!(
        plan_fok_order(30_000, 370_000, 0),
        Err(OrderRejection::SharesTooSmallAfterAlignment { price_cents: 37 })
    );
    // 1.00 share at 0.50 costs $0.50
    assert_eq!(plan_fok_order(1_000_000, 480_000, 20_000), Err(OrderRejection::BelowMinimum { value: 5_000 }));
}

#[test]
fn planned_cost_in_millionths() {
    assert_eq!(planned_cost(FokOrder { size_cents: 1100, price_cents: 87 }), 9_570_000);
}

#[test]
fn cents_are_written_with_two_places() {
    assert_eq!(format_cents(1100), "11.00");
    assert_eq!(format_cents(87), "0.87");
    assert_eq!(format_cents(5), "0.05");
    assert_eq!(format_cents(123_456), "1234.56");
}

#[test]
fn paper_fill_at_ask() {
    let ex = TestExecutor;
    let params = BuyParams {
        token_id: "123".to_string(),
        outcome: Outcome::Up,
        shares: 10_526_315,
        ask_price: 950_000,
        slippage_buffer: 20_000,
    };
    let a = ex.execute_buy(&params).unwrap();
    assert_eq!(a.fill_price, 950_000);
    assert_eq!(a.shares, 10_526_315);
    assert_eq!(a.usdc, 9_999_999);
    assert_eq!(a.notes, "paper_mode");
    assert!(a.order_id.starts_with("paper-"));
    assert_eq!(a.order_id.len(), 42);
    let id = &a.order_id[6..];
    assert_eq!(id.len(), 36);
    assert_eq!(&id[14..15], "4");
    assert!(id.chars().enumerate().all(|(i, c)| if [8, 13, 18, 23].contains(&i) { c == '-' } else { c.is_ascii_hexdigit() && !c.is_ascii_uppercase() }));
    let b = ex.execute_buy(&params).unwrap();
    assert_ne!(a.order_id, b.order_id);
    assert!(!ex.is_live());
    assert_eq!(ex.wallet_address(), None);
    assert_eq!(ex.fetch_usdc_balance(), 0);
}

#[test]
fn order_reply_checks() {
    assert_eq!(check_order_reply(false, true, 1), Err(FillFailure::NotFilled));
    assert_eq!(check_order_reply(true, false, 1), Err(FillFailure::NotFilled));
    assert_eq!(check_order_reply(true, true, 0), Err(FillFailure::PhantomMatch));
    assert_eq!(check_order_reply(true, true, 2), Ok(()));
}

#[test]
fn fill_amounts_fall_back_to_plan() {
    assert_eq!(fill_amounts(0, 0, 11_000_000, 9_570_000), (11_000_000, 9_570_000));
    assert_eq!(fill_amounts(10_000_000, 8_700_000, 11_000_000, 9_570_000), (10_000_000, 8_700_000));
}

#[test]
fn settlement_needs_half_the_cost() {
    assert!(settlement_seen(100_000_000, 95_000_000, 9_570_000));
    assert!(!settlement_seen(100_000_000, 96_000_000, 9_570_000));
    assert!(!settlement_seen(100_000_000, 101_000_000, 9_570_000));
}

#[test]
fn settlement_waits_twelve_reads() {
    assert_eq!(settlement_step(1, 100_000_000, 95_000_000, 9_570_000), SettlementStep::Settled);
    assert_eq!(settlement_step(1, 100_000_000, 100_000_000, 9_570_000), SettlementStep::Wait);
    assert_eq!(settlement_step(11, 100_000_000, 100_000_000, 9_570_000), SettlementStep::Wait);
    assert_eq!(settlement_step(12, 100_000_000, 100_000_000, 9_570_000), SettlementStep::GiveUp);
    assert_eq!(settlement_step(12, 100_000_000, 90_000_000, 9_570_000), SettlementStep::Settled);
}

#[test]
fn paper_fill_names_the_order_by_its_bytes() {
    let params = BuyParams {
        token_id: "123".to_string(),
        outcome: Outcome::Up,
        shares: 20_000_000,
        ask_price: 500_000,
        slippage_buffer: 20_000,
    };
    let a = paper_fill(&params, Some(vec![0u8; 16])).unwrap();
    assert_eq!(a.order_id, "paper-00000000-0000-4000-8000-000000000000");
    assert_eq!((a.fill_price, a.shares, a.usdc), (500_000, 20_000_000, 10_000_000));
    let b = paper_fill(&params, Some(vec![0xffu8; 16])).unwrap();
    assert_eq!(b.order_id, "paper-ffffffff-ffff-4fff-bfff-ffffffffffff");
    let c = paper_fill(&params, Some((0u8..16).collect())).unwrap();
    assert_eq!(c.order_id, "paper-00010203-0405-4607-8809-0a0b0c0d0e0f");
    assert!(matches!(paper_fill(&params, None), Err(PaperFillError::NoRandomness)));
}
