use rainbow_blog::error::ErrorKind;
use rainbow_blog::payment::{
    AccessType, ArticleAccessInfo, PaymentService, PurchaseError, PurchaseRecord, PurchaseStatus, SavedPaymentMethod,
    PurchaseIntentRequest,
    SubscriptionGrant,
};
use rainbow_blog::subscription::{parse_stored_status, SubscriptionStatus};

fn article(paid: bool) -> ArticleAccessInfo {
    ArticleAccessInfo { is_paid_content: paid, author_id: "author".to_string() }
}

/// The three stages of the access decision, run as the service runs them.
fn decide(paid: bool, user: Option<&str>, grant: Option<SubscriptionGrant>, purchase: Option<PurchaseRecord>) -> (bool, AccessType) {
    if let Some(a) = PaymentService::access_by_article("a1", &article(paid), user, 100) {
        return (a.has_access, a.access_type);
    }
    let u = user.unwrap();
    if let Some(a) = PaymentService::access_by_subscription("a1", u, grant, 100) {
        return (a.has_access, a.access_type);
    }
    let a = PaymentService::access_by_purchase("a1", u, purchase);
    (a.has_access, a.access_type)
}

#[test]
fn free_content_is_open() {
    let a = PaymentService::access_by_article("a1", &article(false), None, 100).unwrap();
    assert!(a.has_access);
    assert_eq!(a.access_type, AccessType::Free);
    assert_eq!(a.granted_at, Some(100));
    assert_eq!(a.user_id, "");
    assert_eq!(a.article_id, "a1");
}

#[test]
fn anonymous_reader_gets_preview_of_paid_content() {
    let a = PaymentService::access_by_article("a1", &article(true), None, 100).unwrap();
    assert!(!a.has_access);
    assert_eq!(a.access_type, AccessType::Preview);
    assert_eq!(a.granted_at, None);
}

#[test]
fn author_reads_own_paid_content() {
    let a = PaymentService::access_by_article("a1", &article(true), Some("author"), 7).unwrap();
    assert!(a.has_access);
    assert_eq!(a.access_type, AccessType::Author);
    assert_eq!(a.user_id, "author");
    assert!(PaymentService::access_by_article("a1", &article(true), Some("reader"), 7).is_none());
}

#[test]
fn subscription_grants_until_period_end() {
    let g = SubscriptionGrant {
        can_access_paid_content: true,
        subscription_id: Some("sub_1".to_string()),
        current_period_end: Some(999),
    };
    let a = PaymentService::access_by_subscription("a1", "reader", Some(g), 50).unwrap();
    assert!(a.has_access);
    assert_eq!(a.access_type, AccessType::Subscription);
    assert_eq!(a.subscription_id, Some("sub_1".to_string()));
    assert_eq!(a.granted_at, Some(50));
    assert_eq!(a.expires_at, Some(999));
    let weak = SubscriptionGrant { can_access_paid_content: false, subscription_id: None, current_period_end: None };
    assert!(PaymentService::access_by_subscription("a1", "reader", Some(weak), 50).is_none());
    assert!(PaymentService::access_by_subscription("a1", "reader", None, 50).is_none());
}

#[test]
fn completed_purchase_grants_lasting_access() {
    let p = PurchaseRecord { status: PurchaseStatus::Completed, created_at: 42 };
    let a = PaymentService::access_by_purchase("a1", "reader", Some(p));
    assert!(a.has_access);
    assert_eq!(a.access_type, AccessType::OneTime);
    assert_eq!(a.granted_at, Some(42));
    assert_eq!(a.expires_at, None);
    for status in [PurchaseStatus::Pending, PurchaseStatus::Failed, PurchaseStatus::Refunded] {
        let a = PaymentService::access_by_purchase("a1", "reader", Some(PurchaseRecord { status, created_at: 42 }));
        assert!(!a.has_access);
        assert_eq!(a.access_type, AccessType::Preview);
    }
    assert!(!PaymentService::access_by_purchase("a1", "reader", None).has_access);
}

#[test]
fn access_granted_exactly_when_law_says() {
    let grant = || Some(SubscriptionGrant { can_access_paid_content: true, subscription_id: None, current_period_end: None });
    let bought = || Some(PurchaseRecord { status: PurchaseStatus::Completed, created_at: 1 });
    assert_eq!(decide(false, Some("reader"), None, None), (true, AccessType::Free));
    assert_eq!(decide(true, None, grant(), bought()), (false, AccessType::Preview));
    assert_eq!(decide(true, Some("author"), None, None), (true, AccessType::Author));
    assert_eq!(decide(true, Some("reader"), grant(), bought()), (true, AccessType::Subscription));
    assert_eq!(decide(true, Some("reader"), None, bought()), (true, AccessType::OneTime));
    assert_eq!(decide(true, Some("reader"), None, None), (false, AccessType::Preview));
}

#[test]
fn pricing_defaults() {
    let t = PaymentService::pricing_terms(false, None, None, None);
    assert!(!t.is_paid_content);
    assert_eq!(t.preview_percentage, 30);
    assert_eq!(t.paywall_message, "订阅以继续阅读完整内容");
    let t = PaymentService::pricing_terms(false, Some(500), Some(10), Some("pay".to_string()));
    assert!(t.is_paid_content);
    assert_eq!(t.preview_percentage, 10);
    assert_eq!(t.paywall_message, "pay");
    assert!(PaymentService::pricing_terms(true, None, None, None).is_paid_content);
}

#[test]
fn reading_needs_more_than_a_minute() {
    assert!(!PaymentService::reading_completed(None));
    assert!(!PaymentService::reading_completed(Some(60)));
    assert!(PaymentService::reading_completed(Some(61)));
}

#[test]
fn purchase_checks_in_order() {
    assert_eq!(PaymentService::check_purchase_allowed(false, Some(5), true, true), Err(PurchaseError::NotPaidContent));
    assert_eq!(PaymentService::check_purchase_allowed(true, None, true, true), Err(PurchaseError::NoOneOffPrice));
    assert_eq!(PaymentService::check_purchase_allowed(true, Some(5), true, true), Err(PurchaseError::AlreadyPurchased));
    assert_eq!(
        PaymentService::check_purchase_allowed(true, Some(5), false, true),
        Err(PurchaseError::AlreadySubscribed)
    );
    assert_eq!(PaymentService::check_purchase_allowed(true, Some(5), false, false), Ok(5));
    assert_eq!(PurchaseError::NoPaymentMethod.kind(), ErrorKind::BadRequest);
}

#[test]
fn payment_method_choice() {
    assert_eq!(PaymentService::requested_payment_method(Some("  pm_1 ")), Some("pm_1".to_string()));
    assert_eq!(PaymentService::requested_payment_method(Some("   ")), None);
    assert_eq!(PaymentService::requested_payment_method(None), None);
    let methods = vec![
        SavedPaymentMethod { stripe_payment_method_id: "pm_a".to_string(), is_default: false },
        SavedPaymentMethod { stripe_payment_method_id: "pm_b".to_string(), is_default: true },
        SavedPaymentMethod { stripe_payment_method_id: "pm_c".to_string(), is_default: true },
    ];
    assert_eq!(PaymentService::default_payment_method(&methods), Some("pm_b".to_string()));
    assert_eq!(PaymentService::default_payment_method(&methods[..1].iter().map(|m| SavedPaymentMethod {
        stripe_payment_method_id: m.stripe_payment_method_id.clone(),
        is_default: m.is_default,
    }).collect()), None);
}

#[test]
fn subscription_status_and_access() {
    assert!(PaymentService::subscription_keeps_access(SubscriptionStatus::Active));
    assert!(PaymentService::subscription_keeps_access(SubscriptionStatus::PastDue));
    assert!(!PaymentService::subscription_keeps_access(SubscriptionStatus::Canceled));
    assert!(!PaymentService::subscription_keeps_access(SubscriptionStatus::Expired));
    assert_eq!(parse_stored_status(None), SubscriptionStatus::Active);
    assert_eq!(parse_stored_status(Some("canceled")), SubscriptionStatus::Canceled);
    assert_eq!(parse_stored_status(Some("expired")), SubscriptionStatus::Expired);
    assert_eq!(parse_stored_status(Some("past_due")), SubscriptionStatus::PastDue);
    assert_eq!(parse_stored_status(Some("weird")), SubscriptionStatus::Active);
}

#[test]
fn access_names() {
    assert_eq!(PaymentService::access_type_name(AccessType::Free), "free");
    assert_eq!(PaymentService::access_type_name(AccessType::Subscription), "subscription");
    assert_eq!(PaymentService::access_type_name(AccessType::OneTime), "one_time");
    assert_eq!(PaymentService::access_type_name(AccessType::Author), "author");
    assert_eq!(PaymentService::access_type_name(AccessType::Preview), "preview");
    assert_eq!(PaymentService::grant_kind_name(AccessType::Subscription), "subscription");
    assert_eq!(PaymentService::grant_kind_name(AccessType::OneTime), "one_time_purchase");
}

fn saved(id: &str, is_default: bool) -> SavedPaymentMethod {
    SavedPaymentMethod { stripe_payment_method_id: id.to_string(), is_default }
}

#[test]
fn purchase_payment_method_choice() {
    let methods = vec![saved("pm_a", false), saved("pm_b", true)];
    assert_eq!(PaymentService::purchase_payment_method(Some("  pm_x "), &methods), Ok("pm_x".to_string()));
    assert_eq!(PaymentService::purchase_payment_method(Some("   "), &methods), Ok("pm_b".to_string()));
    assert_eq!(PaymentService::purchase_payment_method(None, &methods), Ok("pm_b".to_string()));
    let no_default = vec![saved("pm_a", false)];
    assert_eq!(PaymentService::purchase_payment_method(None, &no_default), Err(PurchaseError::NoPaymentMethod));
    assert_eq!(PaymentService::purchase_payment_method(Some(""), &vec![]), Err(PurchaseError::NoPaymentMethod));
    assert_eq!(PurchaseError::NoPaymentMethod.kind(), ErrorKind::BadRequest);
}

#[test]
fn content_access_runs_its_stages_in_order() {
    let free = ArticleAccessInfo { is_paid_content: false, author_id: "author".to_string() };
    let paid = ArticleAccessInfo { is_paid_content: true, author_id: "author".to_string() };
    let grant = || Some(SubscriptionGrant {
        can_access_paid_content: true,
        subscription_id: Some("sub_1".to_string()),
        current_period_end: Some(500),
    });
    let bought = || Some(PurchaseRecord { status: PurchaseStatus::Completed, created_at: 40 });

    let a = PaymentService::check_content_access("art", &free, None, None, None, 100);
    assert_eq!((a.has_access, a.access_type), (true, AccessType::Free));
    assert_eq!(a.granted_at, Some(100));

    let a = PaymentService::check_content_access("art", &paid, None, grant(), bought(), 100);
    assert_eq!((a.has_access, a.access_type), (false, AccessType::Preview));

    let a = PaymentService::check_content_access("art", &paid, Some("author"), None, None, 100);
    assert_eq!((a.has_access, a.access_type), (true, AccessType::Author));

    let a = PaymentService::check_content_access("art", &paid, Some("reader"), grant(), bought(), 100);
    assert_eq!((a.has_access, a.access_type), (true, AccessType::Subscription));
    assert_eq!(a.expires_at, Some(500));
    assert_eq!(a.subscription_id, Some("sub_1".to_string()));

    let a = PaymentService::check_content_access("art", &paid, Some("reader"), None, bought(), 100);
    assert_eq!((a.has_access, a.access_type), (true, AccessType::OneTime));
    assert_eq!(a.granted_at, Some(40));

    let pending = Some(PurchaseRecord { status: PurchaseStatus::Pending, created_at: 40 });
    let a = PaymentService::check_content_access("art", &paid, Some("reader"), None, pending, 100);
    assert_eq!((a.has_access, a.access_type), (false, AccessType::Preview));
    assert_eq!(a.user_id, "reader");
    assert_eq!(a.article_id, "art");
}

#[test]
fn purchase_intent_and_pending_record() {
    let req: PurchaseIntentRequest =
        PaymentService::purchase_intent_request("article_purchase:1", "a1", "creator", "buyer", 499, "pm_1");
    assert_eq!((req.amount, req.currency.as_str(), req.payment_method_id.as_str()), (499, "USD", "pm_1"));
    assert_eq!(req.article_id, "a1");
    assert!(!req.confirm);
    assert_eq!(
        req.metadata,
        vec![
            ("purchase_id".to_string(), "article_purchase:1".to_string()),
            ("article_id".to_string(), "a1".to_string()),
            ("creator_id".to_string(), "creator".to_string()),
            ("buyer_id".to_string(), "buyer".to_string()),
        ]
    );
    let row = PaymentService::pending_purchase("article_purchase:1", "buyer", "creator", &req, "pi_9");
    assert_eq!(row.status, PurchaseStatus::Pending);
    assert_eq!((row.amount, row.currency.as_str(), row.stripe_payment_intent_id.as_str()), (499, "USD", "pi_9"));
    assert_eq!((row.buyer_id.as_str(), row.creator_id.as_str(), row.article_id.as_str()), ("buyer", "creator", "a1"));
}
