//! Payment-provider webhook events: which handler an event goes to, and what each
//! handler reports from the event's fields and the stored records it looks up.

use crate::stripe::{spec_provider_subscription_status, StripePurchaseUpdate, StripeService};
use crate::subscription::SubscriptionStatus;
use crate::text::{push_str_item, spec_ascii_uppercase, spec_strs, str_eq, to_uppercase, unicode_uppercase};
use vstd::prelude::*;

verus! {

/// The webhook events the service acts on.
#[derive(Clone, Copy, Debug, PartialEq, Eq, Structural)]
pub enum WebhookEventKind {
    PaymentIntentSucceeded,
    PaymentIntentFailed,
    InvoicePaymentSucceeded,
    InvoicePaymentFailed,
    SubscriptionUpdated,
    SubscriptionDeleted,
    Unhandled,
}

/// The handler of an event type name.
pub open spec fn spec_webhook_event_kind(t: Seq<char>) -> WebhookEventKind {
    if t == "payment_intent.succeeded"@ {
        WebhookEventKind::PaymentIntentSucceeded
    } else if t == "payment_intent.payment_failed"@ {
        WebhookEventKind::PaymentIntentFailed
    } else if t == "invoice.payment_succeeded"@ {
        WebhookEventKind::InvoicePaymentSucceeded
    } else if t == "invoice.payment_failed"@ {
        WebhookEventKind::InvoicePaymentFailed
    } else if t == "customer.subscription.updated"@ {
        WebhookEventKind::SubscriptionUpdated
    } else if t == "customer.subscription.deleted"@ {
        WebhookEventKind::SubscriptionDeleted
    } else {
        WebhookEventKind::Unhandled
    }
}

/// The states of a subscription at the payment provider.
#[derive(Clone, Copy, Debug, PartialEq, Eq, Structural)]
pub enum StripeSubscriptionStatus {
    Active,
    PastDue,
    Canceled,
    Unpaid,
    Trialing,
    Incomplete,
    IncompleteExpired,
}

/// The provider state that a status name denotes; an absent or unknown name is active.
pub open spec fn spec_stripe_subscription_status(s: Seq<char>) -> StripeSubscriptionStatus {
    if s == "past_due"@ {
        StripeSubscriptionStatus::PastDue
    } else if s == "canceled"@ {
        StripeSubscriptionStatus::Canceled
    } else if s == "unpaid"@ {
        StripeSubscriptionStatus::Unpaid
    } else if s == "trialing"@ {
        StripeSubscriptionStatus::Trialing
    } else if s == "incomplete"@ {
        StripeSubscriptionStatus::Incomplete
    } else if s == "incomplete_expired"@ {
        StripeSubscriptionStatus::IncompleteExpired
    } else {
        StripeSubscriptionStatus::Active
    }
}

/// Revenue of a paid subscription invoice; times are Unix seconds.
pub struct StripeSubscriptionRevenue {
    pub subscription_id: String,
    pub creator_id: String,
    pub subscriber_id: String,
    pub amount: i64,
    pub currency: String,
    pub current_period_end: Option<i64>,
}

/// A change of a stored subscription that an event asks for; times are Unix seconds.
#[derive(Clone, Copy, Debug, PartialEq, Eq, Structural)]
pub struct SubscriptionStatusChange {
    pub status: SubscriptionStatus,
    pub current_period_end: Option<i64>,
    pub cancel_at_period_end: Option<bool>,
    pub canceled_at: Option<i64>,
}

/// A stored subscription after a status change, for the subscriber's access rules.
pub struct StripeSubscriptionStatusUpdate {
    pub subscription_id: String,
    pub creator_id: String,
    pub subscriber_id: String,
    pub status: SubscriptionStatus,
    pub current_period_end: Option<i64>,
    pub cancel_at_period_end: Option<bool>,
    pub canceled_at: Option<i64>,
}

/// What processing one webhook event produced.
pub struct StripeWebhookOutcome {
    pub purchase_updates: Vec<StripePurchaseUpdate>,
    pub subscription_revenues: Vec<StripeSubscriptionRevenue>,
    pub subscription_status_updates: Vec<StripeSubscriptionStatusUpdate>,
}

/// A reference to a stored record as a stored field holds it: a plain identifier, a
/// table-and-key pair (either part possibly missing), or something else.
pub enum RecordRef {
    Text(String),
    Thing { tb: Option<String>, id: Option<String> },
    Other,
}

/// The identifier a record reference gives: the text itself, or `table:key` (just the
/// key without a table); nothing without a key.
pub open spec fn spec_record_id(r: RecordRef) -> Option<Seq<char>> {
    match r {
        RecordRef::Text(s) => Some(s@),
        RecordRef::Thing { tb, id } => match id {
            Some(i) => match tb {
                Some(t) => Some(t@ + seq![':'] + i@),
                None => Some(i@),
            },
            None => None,
        },
        RecordRef::Other => None,
    }
}

/// The fields of a succeeded payment intent and of the stored intent record that a
/// purchase is read from.
pub struct PaymentIntentSucceeded {
    pub stripe_payment_intent_id: String,
    /// The buyer that the stored intent record names.
    pub record_user_id: String,
    /// The article that the stored intent record names.
    pub record_article: Option<RecordRef>,
    pub metadata_article_id: Option<String>,
    pub metadata_purchase_id: Option<String>,
    pub metadata_creator_id: Option<String>,
    pub amount_received: Option<i64>,
    pub amount: Option<i64>,
    pub record_amount: Option<i64>,
    pub currency: Option<String>,
    pub record_currency: Option<String>,
}

/// The characters of an optional string.
pub open spec fn spec_opt_text(s: Option<String>) -> Option<Seq<char>> {
    match s {
        Some(t) => Some(t@),
        None => None,
    }
}

/// The first of two optional values that is present.
pub open spec fn spec_first_some<T>(a: Option<T>, b: Option<T>) -> Option<T> {
    match a {
        Some(x) => Some(x),
        None => b,
    }
}

/// The article of a purchase: the one the stored intent record names, else the one
/// the intent's metadata names.
pub open spec fn spec_purchase_article(e: PaymentIntentSucceeded) -> Option<Seq<char>> {
    spec_first_some(
        match e.record_article {
            Some(r) => spec_record_id(r),
            None => None,
        },
        spec_opt_text(e.metadata_article_id),
    )
}

/// The amount of a purchase: the amount received, else the intent's amount, else the
/// stored amount, else nothing.
pub open spec fn spec_purchase_amount(e: PaymentIntentSucceeded) -> int {
    match spec_first_some(spec_first_some(e.amount_received, e.amount), e.record_amount) {
        Some(a) => a as int,
        None => 0,
    }
}

/// The currency of a purchase: the intent's, else the stored one, in upper case; else
/// `USD`.
pub open spec fn spec_purchase_currency(e: PaymentIntentSucceeded) -> Seq<char> {
    match e.currency {
        Some(c) => unicode_uppercase(c@),
        None => match e.record_currency {
            Some(c) => unicode_uppercase(c@),
            None => "USD"@,
        },
    }
}

/// The subscription an invoice is for: the one it names, else the one its first line
/// names.
pub open spec fn spec_invoice_subscription(direct: Option<Seq<char>>, first_line: Option<Seq<char>>) -> Option<
    Seq<char>,
> {
    spec_first_some(direct, first_line)
}

/// The amount of an invoice: the amount paid, else its total, else nothing.
pub open spec fn spec_invoice_amount(amount_paid: Option<i64>, total: Option<i64>) -> int {
    match spec_first_some(amount_paid, total) {
        Some(a) => a as int,
        None => 0,
    }
}

/// The ids of a list of stored webhook events.
pub open spec fn spec_event_ids(s: Seq<String>) -> Seq<Seq<char>> {
    Seq::new(s.len(), |i: int| s[i]@)
}

/// Where a delivery of the event `id` of type `t` goes, given the ids of the events
/// processed so far: nowhere when it was processed, else to the handler of its type.
pub open spec fn spec_webhook_route(processed: Seq<Seq<char>>, id: Seq<char>, t: Seq<char>) -> Option<WebhookEventKind> {
    if processed.contains(id) {
        None
    } else {
        Some(spec_webhook_event_kind(t))
    }
}

/// A webhook event is handled at most once: once an event is recorded as processed,
/// every later delivery of it, of whatever type it claims, is skipped.
pub proof fn law_webhook_event_handled_once(processed: Seq<Seq<char>>, id: Seq<char>, t: Seq<char>)
    ensures
        spec_webhook_route(processed.push(id), id, t) is None,
        !processed.contains(id) ==> spec_webhook_route(processed, id, t) == Some(spec_webhook_event_kind(t)),
{
    assert(processed.push(id)[processed.len() as int] == id);
}

/// Whether chrono represents the Unix time `secs` (whole seconds) as a UTC date-time.
pub uninterp spec fn chrono_timestamp_ok(secs: i64) -> bool;

/// `chrono::DateTime::<Utc>::from_timestamp(secs, 0)`, asked only whether it gives a
/// date-time. The claim: the answer depends on `secs` alone. Which range of seconds
/// chrono accepts (its supported years) is left unsaid.
#[verifier::external_body]
fn timestamp_representable(secs: i64) -> (r: bool)
    ensures
        r == chrono_timestamp_ok(secs),
{
    chrono::DateTime::from_timestamp(secs, 0).is_some()
}

/// A period bound of a provider reply as it is stored: the reply's time (0 when
/// absent), or the Unix epoch when chrono cannot represent it.
pub open spec fn spec_reply_time(t: Option<i64>) -> i64 {
    let secs = match t {
        Some(v) => v,
        None => 0,
    };
    if chrono_timestamp_ok(secs) {
        secs
    } else {
        0
    }
}

/// A trial bound of a provider reply as it is stored: the reply's time when chrono can
/// represent it, else none.
pub open spec fn spec_reply_opt_time(t: Option<i64>) -> Option<i64> {
    match t {
        Some(v) => if chrono_timestamp_ok(v) {
            Some(v)
        } else {
            None
        },
        None => None,
    }
}

/// A subscription created with the provider, as it is stored; times are Unix seconds.
pub struct StoredStripeSubscription {
    pub stripe_subscription_id: String,
    pub stripe_customer_id: String,
    pub stripe_price_id: String,
    pub status: StripeSubscriptionStatus,
    pub current_period_start: i64,
    pub current_period_end: i64,
    pub cancel_at_period_end: bool,
    pub canceled_at: Option<i64>,
    pub trial_start: Option<i64>,
    pub trial_end: Option<i64>,
    pub created_at: i64,
    pub updated_at: i64,
}

/// The characters of an optional string slice.
pub open spec fn spec_opt_str(s: Option<&str>) -> Option<Seq<char>> {
    match s {
        Some(t) => Some(t@),
        None => None,
    }
}

/// Copies an optional string slice.
fn copy_opt(s: Option<&str>) -> (r: Option<String>)
    ensures
        spec_opt_text(r) == spec_opt_str(s),
{
    match s {
        Some(t) => Some(String::from_str(t)),
        None => None,
    }
}

/// Copies an optional string.
fn clone_opt(s: &Option<String>) -> (r: Option<String>)
    ensures
        spec_opt_text(r) == spec_opt_text(*s),
{
    match s {
        Some(t) => Some(t.clone()),
        None => None,
    }
}

/// A period bound of a provider reply as it is stored.
fn reply_time(t: Option<i64>) -> (r: i64)
    ensures
        r == spec_reply_time(t),
{
    let secs: i64 = match t {
        Some(v) => v,
        None => 0,
    };
    if timestamp_representable(secs) {
        secs
    } else {
        0
    }
}

/// A trial bound of a provider reply as it is stored.
fn reply_opt_time(t: Option<i64>) -> (r: Option<i64>)
    ensures
        r == spec_reply_opt_time(t),
{
    match t {
        Some(v) => if timestamp_representable(v) {
            Some(v)
        } else {
            None
        },
        None => None,
    }
}

impl StripeWebhookOutcome {
    /// An outcome with nothing to report.
    pub fn new() -> (o: Self)
        ensures
            o.purchase_updates@.len() == 0,
            o.subscription_revenues@.len() == 0,
            o.subscription_status_updates@.len() == 0,
    {
        StripeWebhookOutcome {
            purchase_updates: Vec::new(),
            subscription_revenues: Vec::new(),
            subscription_status_updates: Vec::new(),
        }
    }
}

impl StripeService {
    /// The handler of a webhook event type (webhook processing).
    pub fn classify_webhook_event(event_type: &str) -> (k: WebhookEventKind)
        ensures
            k == spec_webhook_event_kind(event_type@),
    {
        proof {
            reveal_strlit("payment_intent.succeeded");
            reveal_strlit("payment_intent.payment_failed");
            reveal_strlit("invoice.payment_succeeded");
            reveal_strlit("invoice.payment_failed");
            reveal_strlit("customer.subscription.updated");
            reveal_strlit("customer.subscription.deleted");
        }
        if str_eq(event_type, "payment_intent.succeeded") {
            WebhookEventKind::PaymentIntentSucceeded
        } else if str_eq(event_type, "payment_intent.payment_failed") {
            WebhookEventKind::PaymentIntentFailed
        } else if str_eq(event_type, "invoice.payment_succeeded") {
            WebhookEventKind::InvoicePaymentSucceeded
        } else if str_eq(event_type, "invoice.payment_failed") {
            WebhookEventKind::InvoicePaymentFailed
        } else if str_eq(event_type, "customer.subscription.updated") {
            WebhookEventKind::SubscriptionUpdated
        } else if str_eq(event_type, "customer.subscription.deleted") {
            WebhookEventKind::SubscriptionDeleted
        } else {
            WebhookEventKind::Unhandled
        }
    }

    /// Where a webhook event goes: an event the store already records as processed is
    /// skipped (an empty outcome, and nothing is marked again); any other goes to the
    /// handler of its type, and is marked processed afterwards.
    pub fn webhook_handler(already_processed: bool, event_type: &str) -> (r: Option<WebhookEventKind>)
        ensures
            already_processed ==> r is None,
            !already_processed ==> r == Some(spec_webhook_event_kind(event_type@)),
    {
        if already_processed {
            None
        } else {
            Some(Self::classify_webhook_event(event_type))
        }
    }

    /// Where a delivery of the webhook event `event_id` goes, given the ids of the events
    /// processed so far: `webhook_handler` with the store's answer.
    pub fn webhook_handler_for(processed: &Vec<String>, event_id: &str, event_type: &str) -> (r: Option<
        WebhookEventKind,
    >)
        ensures
            r == spec_webhook_route(spec_event_ids(processed@), event_id@, event_type@),
    {
        let mut seen = false;
        let mut i: usize = 0;
        while i < processed.len()
            invariant
                i <= processed@.len(),
                seen == exists|j: int| 0 <= j < i && (#[trigger] processed@[j])@ == event_id@,
            decreases processed.len() - i,
        {
            if str_eq(processed[i].as_str(), event_id) {
                seen = true;
            }
            i = i + 1;
        }
        proof {
            if seen {
                let j = choose|j: int| 0 <= j < processed@.len() && (#[trigger] processed@[j])@ == event_id@;
                assert(spec_event_ids(processed@)[j] == event_id@);
            } else {
                assert forall|j: int| 0 <= j < spec_event_ids(processed@).len() implies (#[trigger] spec_event_ids(
                    processed@,
                )[j]) != event_id@ by {
                    assert(spec_event_ids(processed@)[j] == processed@[j]@);
                }
            }
        }
        Self::webhook_handler(seen, event_type)
    }

    /// Records the webhook event `event_id` as processed, once its handler finished.
    pub fn mark_webhook_processed(processed: &mut Vec<String>, event_id: &str)
        ensures
            spec_event_ids(final(processed)@) == spec_event_ids(old(processed)@).push(event_id@),
    {
        processed.push(String::from_str(event_id));
        assert(spec_event_ids(processed@) =~= spec_event_ids(old(processed)@).push(event_id@));
    }

    /// The provider state of a subscription-updated event; an absent status is active.
    pub fn map_stripe_subscription_status(status: Option<&str>) -> (r: StripeSubscriptionStatus)
        ensures
            r == match status {
                Some(s) => spec_stripe_subscription_status(s@),
                None => StripeSubscriptionStatus::Active,
            },
    {
        match status {
            None => StripeSubscriptionStatus::Active,
            Some(s) => {
                proof {
                    reveal_strlit("past_due");
                    reveal_strlit("canceled");
                    reveal_strlit("unpaid");
                    reveal_strlit("trialing");
                    reveal_strlit("incomplete");
                    reveal_strlit("incomplete_expired");
                }
                if str_eq(s, "past_due") {
                    StripeSubscriptionStatus::PastDue
                } else if str_eq(s, "canceled") {
                    StripeSubscriptionStatus::Canceled
                } else if str_eq(s, "unpaid") {
                    StripeSubscriptionStatus::Unpaid
                } else if str_eq(s, "trialing") {
                    StripeSubscriptionStatus::Trialing
                } else if str_eq(s, "incomplete") {
                    StripeSubscriptionStatus::Incomplete
                } else if str_eq(s, "incomplete_expired") {
                    StripeSubscriptionStatus::IncompleteExpired
                } else {
                    StripeSubscriptionStatus::Active
                }
            },
        }
    }

    /// The identifier a stored record reference gives.
    pub fn extract_record_id(value: &RecordRef) -> (r: Option<String>)
        ensures
            spec_opt_text(r) == spec_record_id(*value),
    {
        match value {
            RecordRef::Text(s) => Some(s.clone()),
            RecordRef::Thing { tb, id } => match id {
                Some(i) => match tb {
                    Some(t) => {
                        let mut r = t.clone();
                        crate::text::push_char(&mut r, ':');
                        r.append(i.as_str());
                        Some(r)
                    },
                    None => Some(i.clone()),
                },
                None => None,
            },
            RecordRef::Other => None,
        }
    }

    /// First step of a succeeded payment intent: the
    /// article bought; without one there is no purchase to report.
    pub fn purchase_article_id(event: &PaymentIntentSucceeded) -> (r: Option<String>)
        ensures
            spec_opt_text(r) == spec_purchase_article(*event),
    {
        let from_record = match &event.record_article {
            Some(v) => Self::extract_record_id(v),
            None => None,
        };
        match from_record {
            Some(a) => Some(a),
            None => clone_opt(&event.metadata_article_id),
        }
    }

    /// The creator of a purchase as the intent's metadata names it; when it names none,
    /// the article's creator is looked up.
    pub fn purchase_creator_from_metadata(event: &PaymentIntentSucceeded) -> (r: Option<String>)
        ensures
            spec_opt_text(r) == spec_opt_text(event.metadata_creator_id),
    {
        clone_opt(&event.metadata_creator_id)
    }

    /// A succeeded payment intent, its steps joined: the article bought (none without
    /// one), its creator as the metadata names it, else as `looked_up_creator` gives it
    /// (none without one), then the purchase to report.
    pub fn purchase_from_intent(event: &PaymentIntentSucceeded, looked_up_creator: Option<&str>) -> (r: Option<
        StripePurchaseUpdate,
    >)
        ensures
            ({
                let creator = spec_first_some(spec_opt_text(event.metadata_creator_id), spec_opt_str(looked_up_creator));
                match (spec_purchase_article(*event), creator) {
                    (Some(a), Some(c)) => if spec_purchase_amount(*event) > 0 {
                        r matches Some(u) && {
                            &&& u.stripe_payment_intent_id@ == event.stripe_payment_intent_id@
                            &&& u.buyer_id@ == event.record_user_id@
                            &&& u.creator_id@ == c
                            &&& u.article_id@ == a
                            &&& spec_opt_text(u.purchase_id) == spec_opt_text(event.metadata_purchase_id)
                            &&& u.amount == spec_purchase_amount(*event)
                            &&& u.currency@ == spec_purchase_currency(*event)
                        }
                    } else {
                        r is None
                    },
                    _ => r is None,
                }
            }),
    {
        let article_id = match Self::purchase_article_id(event) {
            Some(a) => a,
            None => {
                return None;
            },
        };
        let creator_id = match Self::purchase_creator_from_metadata(event) {
            Some(c) => c,
            None => match looked_up_creator {
                Some(c) => String::from_str(c),
                None => {
                    return None;
                },
            },
        };
        Self::purchase_update(event, article_id.as_str(), creator_id.as_str())
    }

    /// Last step of a succeeded payment intent: the purchase to report for the given
    /// article and creator; none when the amount is not positive.
    pub fn purchase_update(event: &PaymentIntentSucceeded, article_id: &str, creator_id: &str) -> (r: Option<
        StripePurchaseUpdate,
    >)
        ensures
            spec_purchase_amount(*event) <= 0 ==> r is None,
            spec_purchase_amount(*event) > 0 ==> (r matches Some(u) && {
                &&& u.stripe_payment_intent_id@ == event.stripe_payment_intent_id@
                &&& u.buyer_id@ == event.record_user_id@
                &&& u.creator_id@ == creator_id@
                &&& u.article_id@ == article_id@
                &&& spec_opt_text(u.purchase_id) == spec_opt_text(event.metadata_purchase_id)
                &&& u.amount == spec_purchase_amount(*event)
                &&& u.currency@ == spec_purchase_currency(*event)
            }),
    {
        let amount: i64 = match event.amount_received {
            Some(a) => a,
            None => match event.amount {
                Some(a) => a,
                None => match event.record_amount {
                    Some(a) => a,
                    None => 0,
                },
            },
        };
        if amount <= 0 {
            return None;
        }
        let currency = match &event.currency {
            Some(c) => to_uppercase(c.as_str()),
            None => match &event.record_currency {
                Some(c) => to_uppercase(c.as_str()),
                None => {
                    proof {
                        reveal_strlit("USD");
                        assert(spec_ascii_uppercase("USD"@) =~= "USD"@);
                    }
                    to_uppercase("USD")
                },
            },
        };
        Some(
            StripePurchaseUpdate {
                stripe_payment_intent_id: event.stripe_payment_intent_id.clone(),
                buyer_id: event.record_user_id.clone(),
                creator_id: String::from_str(creator_id),
                article_id: String::from_str(article_id),
                purchase_id: clone_opt(&event.metadata_purchase_id),
                amount,
                currency,
            },
        )
    }

    /// The subscription a paid or failed invoice is for (a paid invoice):
    /// the one it names, else the one its first line names.
    pub fn invoice_subscription_id(direct: Option<&str>, first_line: Option<&str>) -> (r: Option<String>)
        ensures
            spec_opt_text(r) == spec_invoice_subscription(spec_opt_str(direct), spec_opt_str(first_line)),
    {
        match direct {
            Some(s) => Some(String::from_str(s)),
            None => copy_opt(first_line),
        }
    }

    /// The revenue of a paid invoice for a stored subscription
    /// (a paid invoice): none when the amount is not positive; the
    /// currency is reported in upper case and defaults to `USD`.
    pub fn invoice_revenue(
        subscription_id: &str,
        creator_id: &str,
        subscriber_id: &str,
        amount_paid: Option<i64>,
        total: Option<i64>,
        currency: Option<&str>,
        period_end: Option<i64>,
    ) -> (r: Option<StripeSubscriptionRevenue>)
        ensures
            spec_invoice_amount(amount_paid, total) <= 0 ==> r is None,
            spec_invoice_amount(amount_paid, total) > 0 ==> (r matches Some(v) && {
                &&& v.subscription_id@ == subscription_id@
                &&& v.creator_id@ == creator_id@
                &&& v.subscriber_id@ == subscriber_id@
                &&& v.amount == spec_invoice_amount(amount_paid, total)
                &&& v.currency@ == match currency {
                    Some(c) => unicode_uppercase(c@),
                    None => "USD"@,
                }
                &&& v.current_period_end == period_end
            }),
    {
        let amount: i64 = match amount_paid {
            Some(a) => a,
            None => match total {
                Some(t) => t,
                None => 0,
            },
        };
        if amount <= 0 {
            return None;
        }
        let cur = match currency {
            Some(c) => to_uppercase(c),
            None => {
                proof {
                    reveal_strlit("usd");
                    reveal_strlit("USD");
                    assert(spec_ascii_uppercase("usd"@) =~= "USD"@);
                }
                to_uppercase("usd")
            },
        };
        Some(
            StripeSubscriptionRevenue {
                subscription_id: String::from_str(subscription_id),
                creator_id: String::from_str(creator_id),
                subscriber_id: String::from_str(subscriber_id),
                amount,
                currency: cur,
                current_period_end: period_end,
            },
        )
    }

    /// The subscription stored after the provider created it (creating a subscription):
    /// active, not cancelling, with the period and trial bounds of the provider's reply,
    /// created and updated at `now`.
    pub fn subscription_record(
        stripe_subscription_id: &str,
        stripe_customer_id: &str,
        stripe_price_id: &str,
        period_start: Option<i64>,
        period_end: Option<i64>,
        trial_start: Option<i64>,
        trial_end: Option<i64>,
        now: i64,
    ) -> (r: StoredStripeSubscription)
        ensures
            r.stripe_subscription_id@ == stripe_subscription_id@,
            r.stripe_customer_id@ == stripe_customer_id@,
            r.stripe_price_id@ == stripe_price_id@,
            r.status == StripeSubscriptionStatus::Active,
            r.current_period_start == spec_reply_time(period_start),
            r.current_period_end == spec_reply_time(period_end),
            !r.cancel_at_period_end,
            r.canceled_at is None,
            r.trial_start == spec_reply_opt_time(trial_start),
            r.trial_end == spec_reply_opt_time(trial_end),
            r.created_at == now,
            r.updated_at == now,
    {
        StoredStripeSubscription {
            stripe_subscription_id: String::from_str(stripe_subscription_id),
            stripe_customer_id: String::from_str(stripe_customer_id),
            stripe_price_id: String::from_str(stripe_price_id),
            status: StripeSubscriptionStatus::Active,
            current_period_start: reply_time(period_start),
            current_period_end: reply_time(period_end),
            cancel_at_period_end: false,
            canceled_at: None,
            trial_start: reply_opt_time(trial_start),
            trial_end: reply_opt_time(trial_end),
            created_at: now,
            updated_at: now,
        }
    }

    /// The columns a subscription status update writes, in order: always the status,
    /// then each of the period end, the cancel-at-period-end flag and the cancellation
    /// time that the change gives; every write also sets `updated_at`.
    pub fn subscription_update_columns(change: &SubscriptionStatusChange) -> (r: Vec<String>)
        ensures
            spec_strs(r@) == seq!["status"@] + (if change.current_period_end is Some {
                seq!["current_period_end"@]
            } else {
                Seq::empty()
            }) + (if change.cancel_at_period_end is Some {
                seq!["cancel_at_period_end"@]
            } else {
                Seq::empty()
            }) + (if change.canceled_at is Some {
                seq!["canceled_at"@]
            } else {
                Seq::empty()
            }),
    {
        let mut r: Vec<String> = Vec::new();
        push_str_item(&mut r, String::from_str("status"));
        if change.current_period_end.is_some() {
            push_str_item(&mut r, String::from_str("current_period_end"));
        }
        if change.cancel_at_period_end.is_some() {
            push_str_item(&mut r, String::from_str("cancel_at_period_end"));
        }
        if change.canceled_at.is_some() {
            push_str_item(&mut r, String::from_str("canceled_at"));
        }
        r
    }

    /// The change a paid invoice with a positive amount asks for: the subscription is
    /// active until the end of the period the invoice's first line covers, and no longer
    /// ends with its period.
    pub fn invoice_paid_change(period_end: Option<i64>) -> (c: SubscriptionStatusChange)
        ensures
            c == (SubscriptionStatusChange {
                status: SubscriptionStatus::Active,
                current_period_end: period_end,
                cancel_at_period_end: Some(false),
                canceled_at: None,
            }),
    {
        SubscriptionStatusChange {
            status: SubscriptionStatus::Active,
            current_period_end: period_end,
            cancel_at_period_end: Some(false),
            canceled_at: None,
        }
    }

    /// The change a failed invoice asks for: the
    /// subscription is past due and ends with its period.
    pub fn invoice_failed_change() -> (c: SubscriptionStatusChange)
        ensures
            c == (SubscriptionStatusChange {
                status: SubscriptionStatus::PastDue,
                current_period_end: None,
                cancel_at_period_end: Some(true),
                canceled_at: None,
            }),
    {
        SubscriptionStatusChange {
            status: SubscriptionStatus::PastDue,
            current_period_end: None,
            cancel_at_period_end: Some(true),
            canceled_at: None,
        }
    }

    /// The change an updated subscription asks for: the
    /// status its provider status name denotes (active when absent), with the period end,
    /// cancellation time and cancel-at-period-end flag the event carries.
    pub fn subscription_updated_change(
        status: Option<&str>,
        current_period_end: Option<i64>,
        canceled_at: Option<i64>,
        cancel_at_period_end: Option<bool>,
    ) -> (c: SubscriptionStatusChange)
        ensures
            c.status == spec_provider_subscription_status(
                match status {
                    Some(s) => s@,
                    None => "active"@,
                },
            ),
            c.current_period_end == current_period_end,
            c.canceled_at == canceled_at,
            c.cancel_at_period_end == cancel_at_period_end,
    {
        let st = match status {
            Some(s) => Self::map_subscription_status(s),
            None => Self::map_subscription_status("active"),
        };
        SubscriptionStatusChange { status: st, current_period_end, cancel_at_period_end, canceled_at }
    }

    /// The change a deleted subscription asks for:
    /// cancelled at `now`, not at the end of its period.
    pub fn subscription_deleted_change(now: i64) -> (c: SubscriptionStatusChange)
        ensures
            c == (SubscriptionStatusChange {
                status: SubscriptionStatus::Canceled,
                current_period_end: None,
                cancel_at_period_end: Some(false),
                canceled_at: Some(now),
            }),
    {
        SubscriptionStatusChange {
            status: SubscriptionStatus::Canceled,
            current_period_end: None,
            cancel_at_period_end: Some(false),
            canceled_at: Some(now),
        }
    }

    /// The status update reported for a stored subscription after a change.
    pub fn status_update(subscription_id: &str, creator_id: &str, subscriber_id: &str, change: SubscriptionStatusChange) -> (u:
        StripeSubscriptionStatusUpdate)
        ensures
            u.subscription_id@ == subscription_id@,
            u.creator_id@ == creator_id@,
            u.subscriber_id@ == subscriber_id@,
            u.status == change.status,
            u.current_period_end == change.current_period_end,
            u.cancel_at_period_end == change.cancel_at_period_end,
            u.canceled_at == change.canceled_at,
    {
        StripeSubscriptionStatusUpdate {
            subscription_id: String::from_str(subscription_id),
            creator_id: String::from_str(creator_id),
            subscriber_id: String::from_str(subscriber_id),
            status: change.status,
            current_period_end: change.current_period_end,
            cancel_at_period_end: change.cancel_at_period_end,
            canceled_at: change.canceled_at,
        }
    }
}

} // verus!
