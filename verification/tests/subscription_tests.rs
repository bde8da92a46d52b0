use rainbow_blog::error::ErrorKind;
use rainbow_blog::subscription::{SubscriptionError, SubscriptionService, SubscriptionStatus, SUBSCRIPTION_PERIOD_SECONDS};

#[test]
fn new_subscription_checks() {
    assert_eq!(SubscriptionService::check_new_subscription(false, false, false, false), Err(SubscriptionError::PlanInactive));
    assert_eq!(SubscriptionService::check_new_subscription(true, true, false, false), Err(SubscriptionError::AlreadySubscribed));
    assert_eq!(
        SubscriptionService::check_new_subscription(true, false, true, false),
        Err(SubscriptionError::PaymentMethodRequired)
    );
    assert_eq!(SubscriptionService::check_new_subscription(true, false, true, true), Ok(()));
    assert_eq!(SubscriptionService::check_new_subscription(true, false, false, false), Ok(()));
    assert_eq!(SubscriptionService::first_period_end(100), 100 + 30 * 86_400);
    assert_eq!(SUBSCRIPTION_PERIOD_SECONDS, 30 * 86_400);
}

#[test]
fn cancel_checks() {
    assert_eq!(SubscriptionService::check_cancel("a", "b", SubscriptionStatus::Active), Err(SubscriptionError::NotSubscriber));
    assert_eq!(
        SubscriptionService::check_cancel("a", "a", SubscriptionStatus::Canceled),
        Err(SubscriptionError::AlreadyCanceled)
    );
    assert_eq!(SubscriptionService::check_cancel("a", "a", SubscriptionStatus::PastDue), Ok(()));
}

#[test]
fn plan_update_clause() {
    assert_eq!(
        SubscriptionService::plan_update_set_clause(false, false, false, false, false),
        Err(SubscriptionError::NoUpdateFields)
    );
    assert_eq!(
        SubscriptionService::plan_update_set_clause(true, false, true, false, true),
        Ok("name = $name, price = $price, is_active = $is_active".to_string())
    );
    assert_eq!(
        SubscriptionService::plan_update_set_clause(false, true, false, true, false),
        Ok("description = $description, benefits = $benefits".to_string())
    );
}

#[test]
fn revenue_estimate_and_kinds() {
    assert_eq!(SubscriptionService::estimated_total_revenue(1000), 12000);
    assert_eq!(SubscriptionError::NotSubscriber.kind(), ErrorKind::Authorization);
    assert_eq!(SubscriptionError::NoUpdateFields.kind(), ErrorKind::Validation);
    assert_eq!(SubscriptionError::PlanInactive.kind(), ErrorKind::BadRequest);
    assert_eq!(SubscriptionError::AlreadySubscribed.kind(), ErrorKind::BadRequest);
    assert_eq!(SubscriptionError::PaymentMethodRequired.kind(), ErrorKind::BadRequest);
    assert_eq!(SubscriptionError::AlreadyCanceled.kind(), ErrorKind::BadRequest);
}
