use hmac::{Hmac, Mac};
use rainbow_blog::error::ErrorKind;
use rainbow_blog::stripe::{
    check_webhook_signature, ConnectAccountType, PaymentIntentStatus, PaymentMethodType, PaymentRequestError,
    StripeConfig, StripeService, WebhookError, WEBHOOK_TOLERANCE_SECONDS,
};
use rainbow_blog::payment::SavedPaymentMethod;
use rainbow_blog::stripe::{IntentMode, IntentReplyError};
use rainbow_blog::stripe_forms::{IntentMetadata, MetadataError};
use rainbow_blog::subscription::SubscriptionStatus;
use sha2::Sha256;

fn sign(secret: &str, timestamp: i64, payload: &str) -> String {
    let mut mac = Hmac::<Sha256>::new_from_slice(secret.as_bytes()).unwrap();
    mac.update(format!("{}.{}", timestamp, payload).as_bytes());
    hex::encode(mac.finalize().into_bytes())
}

const SECRET: &str = "whsec_test";
const BODY: &str = "{\"type\":\"payment_intent.succeeded\"}";

#[test]
fn valid_signature_is_accepted() {
    let ts = 1_700_000_000;
    let header = format!("t={},v1={}", ts, sign(SECRET, ts, BODY));
    assert_eq!(check_webhook_signature(SECRET, BODY, &header, Some(ts as u64)), Ok(()));
    // Upper-case hex decodes to the same tag; whitespace around elements is ignored.
    let upper = format!(" t={} , v1={} ", ts, sign(SECRET, ts, BODY).to_uppercase());
    assert_eq!(check_webhook_signature(SECRET, BODY, &upper, Some(ts as u64 + 300)), Ok(()));
    // The secret is trimmed before use.
    assert_eq!(check_webhook_signature("  whsec_test\n", BODY, &header, Some(ts as u64)), Ok(()));
}

#[test]
fn any_matching_signature_suffices() {
    let ts = 1_700_000_000;
    let header = format!("t={},v1=deadbeef,v0=zz,v1={}", ts, sign(SECRET, ts, BODY));
    assert_eq!(check_webhook_signature(SECRET, BODY, &header, Some(ts as u64)), Ok(()));
}

#[test]
fn webhook_refusals() {
    let ts = 1_700_000_000;
    let good = sign(SECRET, ts, BODY);
    let header = format!("t={},v1={}", ts, good);
    assert_eq!(
        check_webhook_signature("   ", BODY, &header, Some(ts as u64)),
        Err(WebhookError::SecretNotConfigured)
    );
    assert_eq!(
        check_webhook_signature(SECRET, BODY, &format!("v1={}", good), Some(ts as u64)),
        Err(WebhookError::MissingTimestamp)
    );
    assert_eq!(
        check_webhook_signature(SECRET, BODY, &format!("t=abc,v1={}", good), Some(ts as u64)),
        Err(WebhookError::MissingTimestamp)
    );
    assert_eq!(check_webhook_signature(SECRET, BODY, &header, None), Err(WebhookError::ClockUnavailable));
    assert_eq!(
        check_webhook_signature(SECRET, BODY, &header, Some(ts as u64 + 301)),
        Err(WebhookError::Expired)
    );
    assert_eq!(
        check_webhook_signature(SECRET, BODY, &header, Some(ts as u64 - 301)),
        Err(WebhookError::Expired)
    );
    assert_eq!(
        check_webhook_signature(SECRET, BODY, &format!("t={}", ts), Some(ts as u64)),
        Err(WebhookError::MissingSignature)
    );
    assert_eq!(
        check_webhook_signature(SECRET, "{}", &header, Some(ts as u64)),
        Err(WebhookError::SignatureMismatch)
    );
    assert_eq!(
        check_webhook_signature("other", BODY, &header, Some(ts as u64)),
        Err(WebhookError::SignatureMismatch)
    );
    assert_eq!(
        check_webhook_signature(SECRET, BODY, &format!("t={},v1=not-hex", ts), Some(ts as u64)),
        Err(WebhookError::SignatureMismatch)
    );
}

#[test]
fn last_timestamp_counts() {
    let ts = 1_700_000_000;
    let header = format!("t=5,t={},v1={}", ts, sign(SECRET, ts, BODY));
    assert_eq!(check_webhook_signature(SECRET, BODY, &header, Some(ts as u64)), Ok(()));
}

#[test]
fn webhook_error_kinds() {
    assert_eq!(WEBHOOK_TOLERANCE_SECONDS, 300);
    assert_eq!(WebhookError::SecretNotConfigured.kind(), ErrorKind::ServiceUnavailable);
    assert_eq!(WebhookError::MissingTimestamp.kind(), ErrorKind::BadRequest);
    assert_eq!(WebhookError::ClockUnavailable.kind(), ErrorKind::Internal);
    assert_eq!(WebhookError::Expired.kind(), ErrorKind::Authorization);
    assert_eq!(WebhookError::MissingSignature.kind(), ErrorKind::BadRequest);
    assert_eq!(WebhookError::SignatureMismatch.kind(), ErrorKind::Authorization);
}

fn service(secret: &str) -> StripeService {
    StripeService {
        config: StripeConfig {
            secret_key: "sk_test".to_string(),
            webhook_endpoint_secret: secret.to_string(),
            api_version: "2023-10-16".to_string(),
        },
    }
}

#[test]
fn service_checks_against_the_clock() {
    let now = std::time::SystemTime::now().duration_since(std::time::UNIX_EPOCH).unwrap().as_secs() as i64;
    let header = format!("t={},v1={}", now, sign(SECRET, now, BODY));
    assert_eq!(service(SECRET).verify_webhook_signature(BODY, &header), Ok(()));
    let old = now - 3600;
    let stale = format!("t={},v1={}", old, sign(SECRET, old, BODY));
    assert_eq!(service(SECRET).verify_webhook_signature(BODY, &stale), Err(WebhookError::Expired));
    assert_eq!(service("").verify_webhook_signature(BODY, &header), Err(WebhookError::SecretNotConfigured));
}

#[test]
fn payment_intent_statuses() {
    let cases = [
        ("requires_payment_method", PaymentIntentStatus::RequiresPaymentMethod),
        ("requires_confirmation", PaymentIntentStatus::RequiresConfirmation),
        ("requires_action", PaymentIntentStatus::RequiresAction),
        ("processing", PaymentIntentStatus::Processing),
        ("requires_capture", PaymentIntentStatus::RequiresCapture),
        ("succeeded", PaymentIntentStatus::Succeeded),
        ("canceled", PaymentIntentStatus::Canceled),
        ("unknown", PaymentIntentStatus::RequiresPaymentMethod),
    ];
    for (name, want) in cases {
        assert_eq!(StripeService::map_payment_intent_status(name), want);
    }
}

#[test]
fn provider_subscription_statuses() {
    let cases = [
        ("active", SubscriptionStatus::Active),
        ("trialing", SubscriptionStatus::Active),
        ("canceled", SubscriptionStatus::Canceled),
        ("past_due", SubscriptionStatus::PastDue),
        ("unpaid", SubscriptionStatus::PastDue),
        ("incomplete", SubscriptionStatus::PastDue),
        ("incomplete_expired", SubscriptionStatus::PastDue),
        ("expired", SubscriptionStatus::Expired),
        ("something", SubscriptionStatus::Active),
    ];
    for (name, want) in cases {
        assert_eq!(StripeService::map_subscription_status(name), want);
    }
}

#[test]
fn payment_method_and_account_types() {
    assert_eq!(StripeService::parse_payment_method_type("card"), PaymentMethodType::Card);
    assert_eq!(StripeService::parse_payment_method_type("bank_account"), PaymentMethodType::BankAccount);
    assert_eq!(StripeService::parse_payment_method_type("alipay"), PaymentMethodType::Alipay);
    assert_eq!(StripeService::parse_payment_method_type("wechat"), PaymentMethodType::Wechat);
    assert_eq!(StripeService::parse_payment_method_type("wechat_pay"), PaymentMethodType::Wechat);
    assert_eq!(StripeService::parse_payment_method_type("other"), PaymentMethodType::Card);
    assert_eq!(StripeService::extract_account_type(Some("standard")), ConnectAccountType::Standard);
    assert_eq!(StripeService::extract_account_type(Some("custom")), ConnectAccountType::Custom);
    assert_eq!(StripeService::extract_account_type(Some("express")), ConnectAccountType::Express);
    assert_eq!(StripeService::extract_account_type(None), ConnectAccountType::Express);
}

#[test]
fn payment_request_validation() {
    assert_eq!(StripeService::validate_payment_request(None, None), Err(PaymentRequestError::MissingAmount));
    assert_eq!(StripeService::validate_payment_request(Some(49), None), Err(PaymentRequestError::AmountTooSmall));
    assert_eq!(StripeService::validate_payment_request(Some(50), None), Ok((50, "USD".to_string())));
    assert_eq!(StripeService::validate_payment_request(Some(100), Some("eur")), Ok((100, "EUR".to_string())));
    assert_eq!(
        StripeService::validate_payment_request(Some(100), Some("euro")),
        Err(PaymentRequestError::InvalidCurrency)
    );
}

#[test]
fn test_stripe_service_creation() {
    let config = StripeConfig::default();
    assert_eq!(config.api_version, "2023-10-16");
}

#[test]
fn intent_metadata_gets_user_and_article() {
    let given = vec![("source".to_string(), "web".to_string()), ("user_id".to_string(), "someone".to_string())];
    let m = StripeService::prepare_intent_metadata(IntentMetadata::Object(given), "u1", Some("a1")).unwrap();
    assert_eq!(
        m,
        vec![
            ("source".to_string(), "web".to_string()),
            ("user_id".to_string(), "someone".to_string()),
            ("article_id".to_string(), "a1".to_string()),
        ]
    );
    let m = StripeService::prepare_intent_metadata(IntentMetadata::Absent, "u1", None).unwrap();
    assert_eq!(m, vec![("user_id".to_string(), "u1".to_string())]);
    let refused = StripeService::prepare_intent_metadata(IntentMetadata::NotObject, "u1", Some("a1"));
    assert_eq!(refused, Err(MetadataError::NotAnObject));
    assert_eq!(MetadataError::NotAnObject.kind(), ErrorKind::BadRequest);
}

fn defaults(methods: &[SavedPaymentMethod]) -> Vec<&str> {
    methods.iter().filter(|m| m.is_default).map(|m| m.stripe_payment_method_id.as_str()).collect()
}

#[test]
fn one_default_payment_method() {
    let mut methods: Vec<SavedPaymentMethod> = Vec::new();
    StripeService::add_payment_method(&mut methods, "pm_a", false);
    assert_eq!(defaults(&methods), vec!["pm_a"]);
    StripeService::add_payment_method(&mut methods, "pm_b", false);
    assert_eq!(defaults(&methods), vec!["pm_a"]);
    StripeService::add_payment_method(&mut methods, "pm_c", true);
    assert_eq!(defaults(&methods), vec!["pm_c"]);
    StripeService::set_default_payment_method(&mut methods, Some("pm_b"));
    assert_eq!(defaults(&methods), vec!["pm_b"]);
    StripeService::set_default_payment_method(&mut methods, None);
    assert!(defaults(&methods).is_empty());
    assert_eq!(methods.len(), 3);
}

#[test]
fn payment_request_refusals_are_bad_requests() {
    assert_eq!(PaymentRequestError::MissingAmount.kind(), ErrorKind::BadRequest);
    assert_eq!(PaymentRequestError::AmountTooSmall.kind(), ErrorKind::BadRequest);
    assert_eq!(PaymentRequestError::InvalidCurrency.kind(), ErrorKind::BadRequest);
}

#[test]
fn intent_responses() {
    let r = StripeService::setup_intent_response(Some("seti_secret"), Some("seti_1")).unwrap();
    assert_eq!((r.mode, r.client_secret.as_str(), r.setup_intent_id.as_deref()), (IntentMode::Setup, "seti_secret", Some("seti_1")));
    assert_eq!(r.payment_status, None);
    assert_eq!(StripeService::setup_intent_response(None, Some("seti_1")).err(), Some(IntentReplyError::MissingClientSecret));
    let r = StripeService::payment_intent_response(Some("succeeded"), Some("pi_secret")).unwrap();
    assert_eq!((r.mode, r.payment_status), (IntentMode::Payment, Some(PaymentIntentStatus::Succeeded)));
    let r = StripeService::payment_intent_response(None, Some("pi_secret")).unwrap();
    assert_eq!(r.payment_status, Some(PaymentIntentStatus::RequiresPaymentMethod));
    assert_eq!(StripeService::payment_intent_response(Some("succeeded"), None).err(), Some(IntentReplyError::MissingClientSecret));
    assert_eq!(IntentReplyError::MissingClientSecret.kind(), ErrorKind::Internal);
    let m = StripeService::payment_intent_record_metadata(vec![("user_id".to_string(), "u".to_string())]);
    assert_eq!(m, vec![("user_id".to_string(), "u".to_string()), ("mode".to_string(), "payment".to_string())]);
    let m = StripeService::payment_intent_record_metadata(vec![("mode".to_string(), "x".to_string())]);
    assert_eq!(m, vec![("mode".to_string(), "payment".to_string())]);
}
