use rainbow_blog::payment::SavedPaymentMethod;
use rainbow_blog::stripe::{ConnectAccountType, StripeService};
use rainbow_blog::stripe_events::{
    PaymentIntentSucceeded, RecordRef, StripeSubscriptionStatus, StripeWebhookOutcome, SubscriptionStatusChange,
    WebhookEventKind,
};
use rainbow_blog::subscription::SubscriptionStatus;

fn pairs(v: &[(&str, &str)]) -> Vec<(String, String)> {
    v.iter().map(|(k, x)| (k.to_string(), x.to_string())).collect()
}

fn intent() -> PaymentIntentSucceeded {
    PaymentIntentSucceeded {
        stripe_payment_intent_id: "pi_1".to_string(),
        record_user_id: "buyer".to_string(),
        record_article: None,
        metadata_article_id: None,
        metadata_purchase_id: None,
        metadata_creator_id: None,
        amount_received: None,
        amount: None,
        record_amount: None,
        currency: None,
        record_currency: None,
    }
}

#[test]
fn event_kinds() {
    assert_eq!(StripeService::classify_webhook_event("payment_intent.succeeded"), WebhookEventKind::PaymentIntentSucceeded);
    assert_eq!(StripeService::classify_webhook_event("payment_intent.payment_failed"), WebhookEventKind::PaymentIntentFailed);
    assert_eq!(StripeService::classify_webhook_event("invoice.payment_succeeded"), WebhookEventKind::InvoicePaymentSucceeded);
    assert_eq!(StripeService::classify_webhook_event("invoice.payment_failed"), WebhookEventKind::InvoicePaymentFailed);
    assert_eq!(StripeService::classify_webhook_event("customer.subscription.updated"), WebhookEventKind::SubscriptionUpdated);
    assert_eq!(StripeService::classify_webhook_event("customer.subscription.deleted"), WebhookEventKind::SubscriptionDeleted);
    assert_eq!(StripeService::classify_webhook_event("charge.refunded"), WebhookEventKind::Unhandled);
    let o = StripeWebhookOutcome::new();
    assert!(o.purchase_updates.is_empty() && o.subscription_revenues.is_empty() && o.subscription_status_updates.is_empty());
}

#[test]
fn provider_subscription_states() {
    assert_eq!(StripeService::map_stripe_subscription_status(None), StripeSubscriptionStatus::Active);
    assert_eq!(StripeService::map_stripe_subscription_status(Some("past_due")), StripeSubscriptionStatus::PastDue);
    assert_eq!(StripeService::map_stripe_subscription_status(Some("canceled")), StripeSubscriptionStatus::Canceled);
    assert_eq!(StripeService::map_stripe_subscription_status(Some("unpaid")), StripeSubscriptionStatus::Unpaid);
    assert_eq!(StripeService::map_stripe_subscription_status(Some("trialing")), StripeSubscriptionStatus::Trialing);
    assert_eq!(StripeService::map_stripe_subscription_status(Some("incomplete")), StripeSubscriptionStatus::Incomplete);
    assert_eq!(
        StripeService::map_stripe_subscription_status(Some("incomplete_expired")),
        StripeSubscriptionStatus::IncompleteExpired
    );
    assert_eq!(StripeService::map_stripe_subscription_status(Some("odd")), StripeSubscriptionStatus::Active);
}

#[test]
fn record_ids() {
    assert_eq!(StripeService::extract_record_id(&RecordRef::Text("article:1".to_string())), Some("article:1".to_string()));
    assert_eq!(
        StripeService::extract_record_id(&RecordRef::Thing { tb: Some("article".to_string()), id: Some("7".to_string()) }),
        Some("article:7".to_string())
    );
    assert_eq!(
        StripeService::extract_record_id(&RecordRef::Thing { tb: None, id: Some("7".to_string()) }),
        Some("7".to_string())
    );
    assert_eq!(StripeService::extract_record_id(&RecordRef::Thing { tb: Some("a".to_string()), id: None }), None);
    assert_eq!(StripeService::extract_record_id(&RecordRef::Other), None);
}

#[test]
fn purchase_article_prefers_stored_record() {
    let mut e = intent();
    assert_eq!(StripeService::purchase_article_id(&e), None);
    e.metadata_article_id = Some("article:meta".to_string());
    assert_eq!(StripeService::purchase_article_id(&e), Some("article:meta".to_string()));
    e.record_article = Some(RecordRef::Thing { tb: Some("article".to_string()), id: Some("rec".to_string()) });
    assert_eq!(StripeService::purchase_article_id(&e), Some("article:rec".to_string()));
    e.record_article = Some(RecordRef::Other);
    assert_eq!(StripeService::purchase_article_id(&e), Some("article:meta".to_string()));
    e.metadata_creator_id = Some("creator".to_string());
    assert_eq!(StripeService::purchase_creator_from_metadata(&e), Some("creator".to_string()));
}

#[test]
fn purchase_update_amount_and_currency() {
    let mut e = intent();
    assert!(StripeService::purchase_update(&e, "a1", "c1").is_none());
    e.record_amount = Some(300);
    e.metadata_purchase_id = Some("purchase:9".to_string());
    let u = StripeService::purchase_update(&e, "a1", "c1").unwrap();
    assert_eq!(u.amount, 300);
    assert_eq!(u.currency, "USD");
    assert_eq!(u.buyer_id, "buyer");
    assert_eq!(u.creator_id, "c1");
    assert_eq!(u.article_id, "a1");
    assert_eq!(u.purchase_id, Some("purchase:9".to_string()));
    assert_eq!(u.stripe_payment_intent_id, "pi_1");
    e.amount = Some(500);
    e.record_currency = Some("eur".to_string());
    let u = StripeService::purchase_update(&e, "a1", "c1").unwrap();
    assert_eq!((u.amount, u.currency.as_str()), (500, "EUR"));
    e.amount_received = Some(450);
    e.currency = Some("gbp".to_string());
    let u = StripeService::purchase_update(&e, "a1", "c1").unwrap();
    assert_eq!((u.amount, u.currency.as_str()), (450, "GBP"));
    e.amount_received = Some(0);
    assert!(StripeService::purchase_update(&e, "a1", "c1").is_none());
}

#[test]
fn invoice_handling() {
    assert_eq!(StripeService::invoice_subscription_id(Some("sub_a"), Some("sub_b")), Some("sub_a".to_string()));
    assert_eq!(StripeService::invoice_subscription_id(None, Some("sub_b")), Some("sub_b".to_string()));
    assert_eq!(StripeService::invoice_subscription_id(None, None), None);
    let r = StripeService::invoice_revenue("s1", "c1", "u1", None, Some(900), None, Some(77)).unwrap();
    assert_eq!((r.amount, r.currency.as_str(), r.current_period_end), (900, "USD", Some(77)));
    assert_eq!((r.subscription_id.as_str(), r.creator_id.as_str(), r.subscriber_id.as_str()), ("s1", "c1", "u1"));
    let r = StripeService::invoice_revenue("s1", "c1", "u1", Some(100), Some(900), Some("eur"), None).unwrap();
    assert_eq!((r.amount, r.currency.as_str()), (100, "EUR"));
    assert!(StripeService::invoice_revenue("s1", "c1", "u1", Some(0), Some(900), None, None).is_none());
    assert!(StripeService::invoice_revenue("s1", "c1", "u1", None, None, None, None).is_none());
}

#[test]
fn subscription_changes() {
    assert_eq!(
        StripeService::invoice_failed_change(),
        SubscriptionStatusChange {
            status: SubscriptionStatus::PastDue,
            current_period_end: None,
            cancel_at_period_end: Some(true),
            canceled_at: None
        }
    );
    let c = StripeService::subscription_updated_change(None, Some(10), None, Some(false));
    assert_eq!(c.status, SubscriptionStatus::Active);
    assert_eq!((c.current_period_end, c.canceled_at, c.cancel_at_period_end), (Some(10), None, Some(false)));
    assert_eq!(StripeService::subscription_updated_change(Some("unpaid"), None, None, None).status, SubscriptionStatus::PastDue);
    let d = StripeService::subscription_deleted_change(99);
    assert_eq!(d.status, SubscriptionStatus::Canceled);
    assert_eq!((d.canceled_at, d.cancel_at_period_end), (Some(99), Some(false)));
    let u = StripeService::status_update("s1", "c1", "u1", d);
    assert_eq!((u.subscription_id.as_str(), u.creator_id.as_str(), u.subscriber_id.as_str()), ("s1", "c1", "u1"));
    assert_eq!(u.status, SubscriptionStatus::Canceled);
    assert_eq!(u.canceled_at, Some(99));
}

#[test]
fn intent_form_bodies() {
    let meta = pairs(&[("user_id", "u1"), ("article_id", "a1")]);
    assert_eq!(
        StripeService::payment_intent_params("cus_1", 1500, "USD", Some("pm_1"), Some(true), &meta),
        pairs(&[
            ("amount", "1500"),
            ("currency", "USD"),
            ("customer", "cus_1"),
            ("automatic_payment_methods[enabled]", "true"),
            ("payment_method", "pm_1"),
            ("confirm", "true"),
            ("metadata[user_id]", "u1"),
            ("metadata[article_id]", "a1"),
        ])
    );
    assert_eq!(StripeService::payment_intent_params("cus_1", 50, "EUR", None, None, &vec![]).len(), 4);
    assert_eq!(
        StripeService::setup_intent_params("cus_1", &meta)[..3].to_vec(),
        pairs(&[("customer", "cus_1"), ("usage", "off_session"), ("payment_method_types[]", "card")])
    );
    assert_eq!(StripeService::customer_params("a@b.c", None), pairs(&[("email", "a@b.c")]));
    assert_eq!(StripeService::customer_params("a@b.c", Some("Ann")), pairs(&[("email", "a@b.c"), ("name", "Ann")]));
}

#[test]
fn subscription_and_account_form_bodies() {
    assert_eq!(
        StripeService::subscription_params("cus_1", "price_1", Some("pm_1"), Some(14), Some("OFF"), &pairs(&[("k", "v")])),
        pairs(&[
            ("customer", "cus_1"),
            ("items[0][price]", "price_1"),
            ("default_payment_method", "pm_1"),
            ("trial_period_days", "14"),
            ("coupon", "OFF"),
            ("metadata[k]", "v"),
        ])
    );
    assert_eq!(
        StripeService::connect_account_params(ConnectAccountType::Express, "us", "a@b.c", Some("individual"), &vec![]),
        pairs(&[("type", "express"), ("country", "US"), ("email", "a@b.c"), ("business_type", "individual")])
    );
    assert_eq!(
        StripeService::account_link_params("acct_1", Some("https://r"), Some("https://t")),
        Some(pairs(&[
            ("account", "acct_1"),
            ("refresh_url", "https://r"),
            ("return_url", "https://t"),
            ("type", "account_onboarding")
        ]))
    );
    assert_eq!(StripeService::account_link_params("acct_1", None, Some("https://t")), None);
    assert_eq!(StripeService::account_link_params("acct_1", Some("https://r"), None), None);
}

#[test]
fn plan_form_bodies() {
    assert_eq!(
        StripeService::plan_product_params("plan:1", "c1", "Gold", Some("best")),
        pairs(&[
            ("name", "Gold"),
            ("type", "service"),
            ("metadata[plan_id]", "plan:1"),
            ("metadata[creator_id]", "c1"),
            ("description", "best"),
        ])
    );
    assert_eq!(
        StripeService::product_price_params("prod_1", 999, "USD"),
        pairs(&[("product", "prod_1"), ("currency", "usd"), ("unit_amount", "999"), ("recurring[interval]", "month")])
    );
    assert_eq!(StripeService::plan_price_params("prod_1", 999, "USD", "plan:1", "c1").len(), 6);
    assert_eq!(StripeService::product_update_params(None, None), None);
    assert_eq!(StripeService::product_update_params(None, Some("d")), Some(pairs(&[("description", "d")])));
    assert_eq!(
        StripeService::product_update_params(Some("n"), Some("d")),
        Some(pairs(&[("name", "n"), ("description", "d")]))
    );
}

#[test]
fn payment_method_defaults() {
    assert!(StripeService::payment_method_id_given("pm_1"));
    assert!(!StripeService::payment_method_id_given("   "));
    let none_default = vec![SavedPaymentMethod { stripe_payment_method_id: "pm_a".to_string(), is_default: false }];
    let with_default = vec![SavedPaymentMethod { stripe_payment_method_id: "pm_a".to_string(), is_default: true }];
    assert!(StripeService::should_set_default(false, &none_default));
    assert!(StripeService::should_set_default(false, &vec![]));
    assert!(!StripeService::should_set_default(false, &with_default));
    assert!(StripeService::should_set_default(true, &with_default));
}

#[test]
fn purchase_from_intent_joins_its_steps() {
    let mut e = intent();
    e.amount = Some(700);
    // No article: nothing to report, whatever the lookup gives.
    assert!(StripeService::purchase_from_intent(&e, Some("c9")).is_none());
    e.metadata_article_id = Some("a1".to_string());
    // No creator in the metadata and none looked up.
    assert!(StripeService::purchase_from_intent(&e, None).is_none());
    let u = StripeService::purchase_from_intent(&e, Some("looked")).unwrap();
    assert_eq!((u.article_id.as_str(), u.creator_id.as_str(), u.amount), ("a1", "looked", 700));
    e.metadata_creator_id = Some("meta".to_string());
    let u = StripeService::purchase_from_intent(&e, Some("looked")).unwrap();
    assert_eq!(u.creator_id, "meta");
    e.amount = Some(-1);
    assert!(StripeService::purchase_from_intent(&e, Some("looked")).is_none());
}

#[test]
fn paid_invoice_reactivates() {
    let c = StripeService::invoice_paid_change(Some(1234));
    assert_eq!(
        c,
        SubscriptionStatusChange {
            status: SubscriptionStatus::Active,
            current_period_end: Some(1234),
            cancel_at_period_end: Some(false),
            canceled_at: None,
        }
    );
    assert_eq!(StripeService::invoice_paid_change(None).current_period_end, None);
}

#[test]
fn processed_webhook_events_are_skipped() {
    assert_eq!(StripeService::webhook_handler(true, "payment_intent.succeeded"), None);
    assert_eq!(
        StripeService::webhook_handler(false, "payment_intent.succeeded"),
        Some(WebhookEventKind::PaymentIntentSucceeded)
    );
    assert_eq!(StripeService::webhook_handler(false, "charge.refunded"), Some(WebhookEventKind::Unhandled));
}

#[test]
fn redelivered_webhook_event_is_skipped() {
    let mut processed: Vec<String> = vec!["evt_0".to_string()];
    assert_eq!(
        StripeService::webhook_handler_for(&processed, "evt_1", "invoice.payment_failed"),
        Some(WebhookEventKind::InvoicePaymentFailed)
    );
    StripeService::mark_webhook_processed(&mut processed, "evt_1");
    assert_eq!(StripeService::webhook_handler_for(&processed, "evt_1", "invoice.payment_failed"), None);
    assert_eq!(StripeService::webhook_handler_for(&processed, "evt_0", "payment_intent.succeeded"), None);
}

#[test]
fn stored_subscription_record() {
    let r = StripeService::subscription_record("sub_1", "cus_1", "price_1", Some(100), Some(200), None, Some(150), 99);
    assert_eq!(r.status, StripeSubscriptionStatus::Active);
    assert_eq!((r.current_period_start, r.current_period_end), (100, 200));
    assert!(!r.cancel_at_period_end);
    assert_eq!((r.canceled_at, r.trial_start, r.trial_end), (None, None, Some(150)));
    assert_eq!((r.created_at, r.updated_at), (99, 99));
    assert_eq!((r.stripe_subscription_id.as_str(), r.stripe_customer_id.as_str(), r.stripe_price_id.as_str()), ("sub_1", "cus_1", "price_1"));
    let r = StripeService::subscription_record("sub_1", "cus_1", "price_1", None, Some(i64::MAX), Some(i64::MIN), None, 0);
    assert_eq!((r.current_period_start, r.current_period_end, r.trial_start), (0, 0, None));
}

#[test]
fn subscription_update_writes_given_columns() {
    let all = SubscriptionStatusChange {
        status: SubscriptionStatus::Active,
        current_period_end: Some(5),
        cancel_at_period_end: Some(false),
        canceled_at: Some(4),
    };
    assert_eq!(
        StripeService::subscription_update_columns(&all),
        vec!["status", "current_period_end", "cancel_at_period_end", "canceled_at"]
    );
    let some = SubscriptionStatusChange { current_period_end: None, canceled_at: None, ..all };
    assert_eq!(StripeService::subscription_update_columns(&some), vec!["status", "cancel_at_period_end"]);
}
