use rainbow_blog::analytics::AnalyticsService;
use rainbow_blog::revenue::{
    CreatorEarnings, PayoutError, RevenueEntry, RevenueGroupRow, RevenueService, RevenueStatus,
    MINIMUM_PAYOUT_AMOUNT, SETTLEMENT_DELAY_SECONDS,
};

#[test]
fn new_earnings_are_zero() {
    let e = CreatorEarnings::empty("c1", 10);
    assert_eq!(e.creator_id, "c1");
    assert_eq!((e.total_earnings, e.available_balance, e.pending_balance, e.lifetime_earnings), (0, 0, 0, 0));
    assert_eq!(e.currency, "USD");
    assert_eq!(e.last_payout_at, None);
    assert_eq!(e.updated_at, 10);
}

#[test]
fn revenue_is_pending_until_settled() {
    let mut e = CreatorEarnings::empty("c1", 0);
    e.record_revenue(1000, 5);
    assert_eq!(e.total_earnings, 1000);
    assert_eq!(e.pending_balance, 1000);
    assert_eq!(e.lifetime_earnings, 1000);
    assert_eq!(e.available_balance, 0);
    e.apply_settlement(600, 9);
    assert_eq!(e.pending_balance, 400);
    assert_eq!(e.available_balance, 600);
    assert_eq!(e.pending_balance + e.available_balance, 1000);
    assert_eq!(e.last_payout_at, Some(9));
    e.apply_settlement(0, 11);
    assert_eq!((e.pending_balance, e.available_balance), (400, 600));
    assert_eq!(e.last_payout_at, Some(11));
}

#[test]
fn payout_never_overdraws() {
    let mut e = CreatorEarnings::empty("c1", 0);
    e.record_revenue(500, 1);
    e.apply_settlement(500, 2);
    assert!(!e.apply_payout(501, 3));
    assert_eq!(e.available_balance, 500);
    assert_eq!(e.updated_at, 2);
    assert!(e.apply_payout(500, 4));
    assert_eq!(e.available_balance, 0);
    assert_eq!(e.updated_at, 4);
}

#[test]
fn payout_checks() {
    let svc = RevenueService::new();
    assert_eq!(svc.minimum_payout_amount(), 5000);
    assert_eq!(MINIMUM_PAYOUT_AMOUNT, 5000);
    assert_eq!(svc.check_payout(500, 600), Err(PayoutError::InsufficientBalance));
    assert_eq!(svc.check_payout(10000, 4999), Err(PayoutError::BelowMinimum));
    assert_eq!(svc.check_payout(10000, 5000), Ok(()));
    assert_eq!(svc.check_payout(5000, 5000), Ok(()));
    assert_eq!(svc.check_payout(100, 200), Err(PayoutError::InsufficientBalance));
}

#[test]
fn thirty_day_settlement() {
    let now = 100 * 86_400;
    assert_eq!(SETTLEMENT_DELAY_SECONDS, 30 * 86_400);
    let mut entries = vec![
        RevenueEntry { amount: Some(100), status: RevenueStatus::Pending, created_at: now - SETTLEMENT_DELAY_SECONDS, processed_at: None },
        RevenueEntry { amount: Some(200), status: RevenueStatus::Pending, created_at: now - SETTLEMENT_DELAY_SECONDS + 1, processed_at: None },
        RevenueEntry { amount: Some(400), status: RevenueStatus::Completed, created_at: 0, processed_at: Some(1) },
        RevenueEntry { amount: None, status: RevenueStatus::Pending, created_at: 0, processed_at: None },
        RevenueEntry { amount: Some(800), status: RevenueStatus::Pending, created_at: 0, processed_at: None },
    ];
    let total = RevenueService::settle_pending_revenues(&mut entries, now);
    assert_eq!(total, 900);
    assert_eq!(entries[0].status, RevenueStatus::Completed);
    assert_eq!(entries[0].processed_at, Some(now));
    assert_eq!(entries[1].status, RevenueStatus::Pending);
    assert_eq!(entries[1].processed_at, None);
    assert_eq!(entries[2].processed_at, Some(1));
    assert_eq!(entries[3].status, RevenueStatus::Completed);
    assert_eq!(entries[4].status, RevenueStatus::Completed);
    assert_eq!(entries[4].amount, Some(800));
    assert_eq!(RevenueService::settle_pending_revenues(&mut entries, now), 0);
}

fn row(source: Option<&str>, amount: Option<i64>, count: Option<i64>) -> RevenueGroupRow {
    RevenueGroupRow { source_type: source.map(|s| s.to_string()), total_amount: amount, count }
}

#[test]
fn breakdown_by_source() {
    let rows = vec![
        row(Some("subscription"), Some(1000), Some(3)),
        row(Some("article_purchase"), Some(500), Some(2)),
        row(Some("tip"), None, Some(1)),
        row(Some("advertisement"), Some(70), None),
        row(Some("other"), Some(9999), Some(4)),
        row(None, Some(1), Some(1)),
    ];
    let b = RevenueService::revenue_breakdown(&rows);
    assert_eq!(b.subscription_revenue, 1000);
    assert_eq!(b.purchase_revenue, 500);
    assert_eq!(b.tip_revenue, 0);
    assert_eq!(b.ad_revenue, 70);
    assert_eq!(b.total_revenue, 1570);
    assert_eq!(b.transaction_count, 11);
    let later = vec![row(Some("tip"), Some(5), Some(1)), row(Some("tip"), Some(7), Some(1))];
    assert_eq!(RevenueService::revenue_breakdown(&later).tip_revenue, 7);
    let empty = RevenueService::revenue_breakdown(&vec![]);
    assert_eq!((empty.total_revenue, empty.transaction_count), (0, 0));
}

#[test]
fn previous_period_has_same_length() {
    assert_eq!(AnalyticsService::previous_period(100, 160), (40, 100));
    assert_eq!(AnalyticsService::previous_period(0, 0), (0, 0));
}

#[test]
fn month_steps() {
    assert_eq!(RevenueService::next_month(2024, 12), (2025, 1));
    assert_eq!(RevenueService::next_month(2024, 5), (2024, 6));
    assert_eq!(RevenueService::previous_month(2024, 1), (2023, 12));
    assert_eq!(RevenueService::previous_month(2024, 6), (2024, 5));
    for m in 1..=12u32 {
        let (y, n) = RevenueService::next_month(2000, m);
        assert_eq!(RevenueService::previous_month(y, n), (2000, m));
    }
}

#[test]
fn revenue_period_is_the_month_from_its_first_day() {
    let p = RevenueService::revenue_period(2025, 1);
    assert_eq!(p.period_start, 1_735_689_600);
    assert_eq!(p.period_end, 1_735_689_600 + 31 * 86_400);
    assert_eq!(p.status, RevenueStatus::Pending);
    assert_eq!(RevenueService::revenue_period(1970, 1).period_start, 0);
    assert_eq!(RevenueService::revenue_period(2000, 3).period_start, 951_868_800);
    assert_eq!(RevenueService::revenue_period(2024, 2).period_start, 1_706_745_600);
    assert_eq!(RevenueService::revenue_period(0, 3).period_start, -719_468 * 86_400);
    assert_eq!(RevenueService::revenue_period(-1, 1).period_start, -719_893 * 86_400);
}
