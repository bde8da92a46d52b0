//! Creator subscriptions: statuses, plans and the rules of subscribing and cancelling.

use crate::error::ErrorKind;
use crate::text::{join_strs, push_str_item, spec_join, spec_strs, str_eq};
use vstd::prelude::*;

verus! {

/// The state of a reader's subscription to a creator.
#[derive(Clone, Copy, Debug, PartialEq, Eq, Structural)]
pub enum SubscriptionStatus {
    Active,
    Canceled,
    Expired,
    PastDue,
}

/// The status that a stored subscription record names; unknown names count as active.
pub open spec fn spec_stored_status(s: Seq<char>) -> SubscriptionStatus {
    if s == "canceled"@ {
        SubscriptionStatus::Canceled
    } else if s == "expired"@ {
        SubscriptionStatus::Expired
    } else if s == "past_due"@ {
        SubscriptionStatus::PastDue
    } else {
        SubscriptionStatus::Active
    }
}

/// Reads the status of a stored subscription record; an absent status counts as active.
pub fn parse_stored_status(status: Option<&str>) -> (r: SubscriptionStatus)
    ensures
        status is None ==> r == SubscriptionStatus::Active,
        status is Some ==> r == spec_stored_status(status.unwrap()@),
{
    match status {
        None => SubscriptionStatus::Active,
        Some(s) => {
            proof {
                reveal_strlit("active");
                reveal_strlit("canceled");
                reveal_strlit("expired");
                reveal_strlit("past_due");
                assert("active"@.len() == 6);
            }
            if str_eq(s, "active") {
                SubscriptionStatus::Active
            } else if str_eq(s, "canceled") {
                SubscriptionStatus::Canceled
            } else if str_eq(s, "expired") {
                SubscriptionStatus::Expired
            } else if str_eq(s, "past_due") {
                SubscriptionStatus::PastDue
            } else {
                SubscriptionStatus::Active
            }
        },
    }
}

/// Why a subscription operation was refused.
#[derive(Clone, Copy, Debug, PartialEq, Eq, Structural)]
pub enum SubscriptionError {
    /// The plan is no longer offered.
    PlanInactive,
    /// The reader already subscribes to the creator.
    AlreadySubscribed,
    /// Paid subscriptions need a payment method.
    PaymentMethodRequired,
    /// Only the subscriber may cancel.
    NotSubscriber,
    /// The subscription is already cancelled.
    AlreadyCanceled,
    /// A plan update names no field.
    NoUpdateFields,
}

impl SubscriptionError {
    /// The category under which the refusal is reported.
    pub open spec fn spec_kind(self) -> ErrorKind {
        match self {
            SubscriptionError::NotSubscriber => ErrorKind::Authorization,
            SubscriptionError::NoUpdateFields => ErrorKind::Validation,
            _ => ErrorKind::BadRequest,
        }
    }

    /// The category under which the refusal is reported.
    pub fn kind(&self) -> (k: ErrorKind)
        ensures
            k == self.spec_kind(),
    {
        match self {
            SubscriptionError::NotSubscriber => ErrorKind::Authorization,
            SubscriptionError::NoUpdateFields => ErrorKind::Validation,
            _ => ErrorKind::BadRequest,
        }
    }
}

/// Subscription rules.
pub struct SubscriptionService {}

/// The length of a subscription period: thirty days, in seconds.
pub const SUBSCRIPTION_PERIOD_SECONDS: i64 = 2592000;

/// The fields a plan update sets, in the order they are written.
pub open spec fn spec_plan_update_fields(
    name: bool,
    description: bool,
    price: bool,
    benefits: bool,
    is_active: bool,
) -> Seq<Seq<char>> {
    (if name { seq!["name"@] } else { Seq::empty() }) + (if description { seq!["description"@] } else { Seq::empty() })
        + (if price { seq!["price"@] } else { Seq::empty() }) + (if benefits { seq!["benefits"@] } else { Seq::empty() })
        + (if is_active { seq!["is_active"@] } else { Seq::empty() })
}

/// The assignment of one field to the parameter of the same name.
pub open spec fn spec_assignment(field: Seq<char>) -> Seq<char> {
    field + " = $"@ + field
}

/// Adds a field name when `present`.
fn add_field(v: &mut Vec<String>, present: bool, name: &str)
    ensures
        spec_strs(final(v)@) == spec_strs(old(v)@) + (if present { seq![name@] } else { Seq::empty() }),
{
    if present {
        push_str_item(v, String::from_str(name));
    }
    assert(spec_strs(v@) =~= spec_strs(old(v)@) + (if present { seq![name@] } else { Seq::empty() }));
}

impl SubscriptionService {
    /// The checks of a new subscription, in order: the plan is offered, the reader does
    /// not subscribe to the creator yet, and a payment method is given when payments are
    /// on.
    pub fn check_new_subscription(
        plan_active: bool,
        already_subscribed: bool,
        payments_enabled: bool,
        payment_method_given: bool,
    ) -> (r: Result<(), SubscriptionError>)
        ensures
            !plan_active ==> r == Err::<(), SubscriptionError>(SubscriptionError::PlanInactive),
            plan_active && already_subscribed ==> r == Err::<(), SubscriptionError>(SubscriptionError::AlreadySubscribed),
            plan_active && !already_subscribed && payments_enabled && !payment_method_given ==> r == Err::<
                (),
                SubscriptionError,
            >(SubscriptionError::PaymentMethodRequired),
            plan_active && !already_subscribed && (!payments_enabled || payment_method_given) ==> r is Ok,
    {
        if !plan_active {
            return Err(SubscriptionError::PlanInactive);
        }
        if already_subscribed {
            return Err(SubscriptionError::AlreadySubscribed);
        }
        if payments_enabled && !payment_method_given {
            return Err(SubscriptionError::PaymentMethodRequired);
        }
        Ok(())
    }

    /// The end of the first period of a subscription started at `now`: thirty days later.
    pub fn first_period_end(now: i64) -> (r: i64)
        requires
            now + SUBSCRIPTION_PERIOD_SECONDS <= i64::MAX,
        ensures
            r == now + SUBSCRIPTION_PERIOD_SECONDS,
    {
        now + SUBSCRIPTION_PERIOD_SECONDS
    }

    /// The checks of a cancellation, in order: the user is the subscriber, and the
    /// subscription is not cancelled yet.
    pub fn check_cancel(subscriber_id: &str, user_id: &str, status: SubscriptionStatus) -> (r: Result<
        (),
        SubscriptionError,
    >)
        ensures
            subscriber_id@ != user_id@ ==> r == Err::<(), SubscriptionError>(SubscriptionError::NotSubscriber),
            subscriber_id@ == user_id@ && status == SubscriptionStatus::Canceled ==> r == Err::<(), SubscriptionError>(
                SubscriptionError::AlreadyCanceled,
            ),
            subscriber_id@ == user_id@ && status != SubscriptionStatus::Canceled ==> r is Ok,
    {
        if !str_eq(subscriber_id, user_id) {
            return Err(SubscriptionError::NotSubscriber);
        }
        if status == SubscriptionStatus::Canceled {
            return Err(SubscriptionError::AlreadyCanceled);
        }
        Ok(())
    }

    /// The `SET` list of a plan update: each field the update
    /// sets assigned from its parameter, in order; refused when it sets none.
    pub fn plan_update_set_clause(
        name: bool,
        description: bool,
        price: bool,
        benefits: bool,
        is_active: bool,
    ) -> (r: Result<String, SubscriptionError>)
        ensures
            spec_plan_update_fields(name, description, price, benefits, is_active).len() == 0 ==> r == Err::<
                String,
                SubscriptionError,
            >(SubscriptionError::NoUpdateFields),
            spec_plan_update_fields(name, description, price, benefits, is_active).len() > 0 ==> (r matches Ok(c)
                && c@ == spec_join(
                spec_plan_update_fields(name, description, price, benefits, is_active).map_values(
                    |f: Seq<char>| spec_assignment(f),
                ),
                ", "@,
            )),
    {
        let mut fields: Vec<String> = Vec::new();
        assert(spec_strs(fields@) =~= Seq::<Seq<char>>::empty());
        add_field(&mut fields, name, "name");
        add_field(&mut fields, description, "description");
        add_field(&mut fields, price, "price");
        add_field(&mut fields, benefits, "benefits");
        add_field(&mut fields, is_active, "is_active");
        assert(spec_strs(fields@) =~= spec_plan_update_fields(name, description, price, benefits, is_active));
        if fields.len() == 0 {
            return Err(SubscriptionError::NoUpdateFields);
        }
        let mut parts: Vec<String> = Vec::new();
        let mut i: usize = 0;
        while i < fields.len()
            invariant
                i <= fields@.len(),
                spec_strs(parts@) == spec_strs(fields@).take(i as int).map_values(|f: Seq<char>| spec_assignment(f)),
            decreases fields.len() - i,
        {
            let mut a = fields[i].clone();
            a.append(" = $");
            a.append(fields[i].as_str());
            push_str_item(&mut parts, a);
            assert(spec_strs(fields@).take(i + 1) =~= spec_strs(fields@).take(i as int).push(fields@[i as int]@));
            assert(spec_strs(parts@) =~= spec_strs(fields@).take(i + 1).map_values(|f: Seq<char>| spec_assignment(f)));
            i = i + 1;
        }
        assert(spec_strs(fields@).take(fields@.len() as int) =~= spec_strs(fields@));
        Ok(join_strs(&parts, ", "))
    }

    /// The total revenue a creator's statistics report: twelve
    /// months of the current monthly revenue.
    pub fn estimated_total_revenue(monthly_revenue: i64) -> (r: i64)
        requires
            i64::MIN <= monthly_revenue * 12 <= i64::MAX,
        ensures
            r == monthly_revenue * 12,
    {
        monthly_revenue * 12
    }
}

} // verus!
