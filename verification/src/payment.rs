//! Paid content: who may read an article in full, and the rules of buying one.

use crate::error::ErrorKind;
use crate::stripe_forms::spec_pairs;
use crate::subscription::SubscriptionStatus;
use crate::text::{chars_of, spec_trim, str_eq, string_of, sub_chars, trim_bounds};
use vstd::prelude::*;

verus! {

/// Why a reader may (or may not) read an article in full.
#[derive(Clone, Copy, Debug, PartialEq, Eq, Structural)]
pub enum AccessType {
    Free,
    Subscription,
    OneTime,
    Author,
    Preview,
}

/// The verdict on one reader's access to one article; times are Unix seconds.
pub struct ContentAccess {
    pub article_id: String,
    pub user_id: String,
    pub has_access: bool,
    pub access_type: AccessType,
    pub subscription_id: Option<String>,
    pub granted_at: Option<i64>,
    pub expires_at: Option<i64>,
}

/// What the access rules read of an article.
pub struct ArticleAccessInfo {
    pub is_paid_content: bool,
    pub author_id: String,
}

/// An active subscription of the reader to the article's author, as a lookup found it.
pub struct SubscriptionGrant {
    pub can_access_paid_content: bool,
    pub subscription_id: Option<String>,
    pub current_period_end: Option<i64>,
}

/// The states of a one-off article purchase.
#[derive(Clone, Copy, Debug, PartialEq, Eq, Structural)]
pub enum PurchaseStatus {
    Pending,
    Completed,
    Failed,
    Refunded,
}

/// A reader's purchase of an article, as a lookup found it.
pub struct PurchaseRecord {
    pub status: PurchaseStatus,
    pub created_at: i64,
}

/// Paid-content rules.
pub struct PaymentService {}

/// The first stage of an access decision, from the article and the reader alone:
/// free content is open to all; paid content is a preview for anonymous readers and open
/// to its author; otherwise `None` (the reader's subscription decides next).
pub open spec fn spec_access_by_article(is_paid: bool, author: Seq<char>, user: Option<Seq<char>>) -> Option<
    (bool, AccessType),
> {
    if !is_paid {
        Some((true, AccessType::Free))
    } else {
        match user {
            None => Some((false, AccessType::Preview)),
            Some(u) => if u == author {
                Some((true, AccessType::Author))
            } else {
                None
            },
        }
    }
}

/// The characters of an optional string slice.
pub open spec fn opt_chars(s: Option<&str>) -> Option<Seq<char>> {
    match s {
        Some(t) => Some(t@),
        None => None,
    }
}

/// The characters of an optional string.
pub open spec fn opt_string_chars(s: Option<String>) -> Option<Seq<char>> {
    match s {
        Some(t) => Some(t@),
        None => None,
    }
}

impl PaymentService {
    /// First stage of the access check: decides from the article and the reader
    /// alone, or gives `None` when the reader's subscription must be looked up.
    pub fn access_by_article(article_id: &str, article: &ArticleAccessInfo, user_id: Option<&str>, now: i64) -> (r:
        Option<ContentAccess>)
        ensures
            match r {
                Some(a) => spec_access_by_article(article.is_paid_content, article.author_id@, opt_chars(user_id))
                    == Some((a.has_access, a.access_type)) && a.article_id@ == article_id@ && a.user_id@ == (
                match user_id {
                    Some(u) => u@,
                    None => Seq::<char>::empty(),
                }) && a.subscription_id is None && a.expires_at is None && a.granted_at == (if a.has_access {
                    Some(now)
                } else {
                    None
                }),
                None => spec_access_by_article(article.is_paid_content, article.author_id@, opt_chars(user_id)) is None,
            },
    {
        let uid = match user_id {
            Some(u) => String::from_str(u),
            None => String::new(),
        };
        if !article.is_paid_content {
            return Some(
                ContentAccess {
                    article_id: String::from_str(article_id),
                    user_id: uid,
                    has_access: true,
                    access_type: AccessType::Free,
                    subscription_id: None,
                    granted_at: Some(now),
                    expires_at: None,
                },
            );
        }
        match user_id {
            None => Some(
                ContentAccess {
                    article_id: String::from_str(article_id),
                    user_id: uid,
                    has_access: false,
                    access_type: AccessType::Preview,
                    subscription_id: None,
                    granted_at: None,
                    expires_at: None,
                },
            ),
            Some(u) => {
                if str_eq(article.author_id.as_str(), u) {
                    Some(
                        ContentAccess {
                            article_id: String::from_str(article_id),
                            user_id: uid,
                            has_access: true,
                            access_type: AccessType::Author,
                            subscription_id: None,
                            granted_at: Some(now),
                            expires_at: None,
                        },
                    )
                } else {
                    None
                }
            },
        }
    }
}

/// The full access decision: the article and the reader first, then an active
/// subscription that opens paid content, then a completed purchase; otherwise a preview.
pub open spec fn spec_content_access(
    is_paid: bool,
    author: Seq<char>,
    user: Option<Seq<char>>,
    subscription_grants: bool,
    purchase_completed: bool,
) -> (bool, AccessType) {
    match spec_access_by_article(is_paid, author, user) {
        Some(v) => v,
        None => if subscription_grants {
            (true, AccessType::Subscription)
        } else if purchase_completed {
            (true, AccessType::OneTime)
        } else {
            (false, AccessType::Preview)
        },
    }
}

/// Full access is granted exactly when the article is free, the reader wrote it, the
/// reader's subscription opens paid content, or the reader completed a purchase of it;
/// an anonymous reader reads paid content only as a preview.
pub proof fn law_access_granted_iff(
    is_paid: bool,
    author: Seq<char>,
    user: Option<Seq<char>>,
    subscription_grants: bool,
    purchase_completed: bool,
)
    ensures
        spec_content_access(is_paid, author, user, subscription_grants, purchase_completed).0 <==> (!is_paid
            || (user is Some && (user->0 == author || subscription_grants || purchase_completed))),
        is_paid && user is None ==> spec_content_access(
            is_paid,
            author,
            user,
            subscription_grants,
            purchase_completed,
        ) == (false, AccessType::Preview),
        user == Some(author) ==> spec_content_access(is_paid, author, user, subscription_grants, purchase_completed).0,
{
}

/// The payment-intent request an article purchase sends: a payment of the article's
/// price, not confirmed yet.
pub struct PurchaseIntentRequest {
    pub amount: i64,
    pub currency: String,
    pub payment_method_id: String,
    pub article_id: String,
    pub confirm: bool,
    pub metadata: Vec<(String, String)>,
}

/// An article purchase as it is stored.
pub struct PurchaseRow {
    pub purchase_id: String,
    pub article_id: String,
    pub buyer_id: String,
    pub creator_id: String,
    pub amount: i64,
    pub currency: String,
    pub stripe_payment_intent_id: String,
    pub status: PurchaseStatus,
}

/// The metadata of a purchase's payment intent: the purchase, the article, its creator
/// and the buyer.
pub open spec fn spec_purchase_metadata(
    purchase_id: Seq<char>,
    article_id: Seq<char>,
    creator_id: Seq<char>,
    buyer_id: Seq<char>,
) -> Seq<(Seq<char>, Seq<char>)> {
    seq![
        ("purchase_id"@, purchase_id),
        ("article_id"@, article_id),
        ("creator_id"@, creator_id),
        ("buyer_id"@, buyer_id),
    ]
}

/// Why a purchase of an article was refused.
#[derive(Clone, Copy, Debug, PartialEq, Eq, Structural)]
pub enum PurchaseError {
    /// The article is not paid content.
    NotPaidContent,
    /// The article has no one-off price.
    NoOneOffPrice,
    /// The reader already completed a purchase of it.
    AlreadyPurchased,
    /// The reader's subscription already opens it.
    AlreadySubscribed,
    /// No payment method was given and none is the default.
    NoPaymentMethod,
}

impl PurchaseError {
    /// The category under which the refusal is reported.
    pub fn kind(&self) -> (k: ErrorKind)
        ensures
            k == ErrorKind::BadRequest,
    {
        ErrorKind::BadRequest
    }
}

/// A stored payment method of a reader.
pub struct SavedPaymentMethod {
    pub stripe_payment_method_id: String,
    pub is_default: bool,
}

/// The pricing of an article after defaults: whether it is paid, how much of it a
/// preview shows, and the paywall text.
pub struct PricingTerms {
    pub is_paid_content: bool,
    pub preview_percentage: i32,
    pub paywall_message: String,
}

/// The paywall text shown when none is configured.
pub open spec fn spec_default_paywall_message() -> Seq<char> {
    "订阅以继续阅读完整内容"@
}

/// The index of the first default payment method, if any.
pub open spec fn spec_first_default(methods: Seq<SavedPaymentMethod>) -> Option<int>
    decreases methods.len(),
{
    if methods.len() == 0 {
        None
    } else if methods[0].is_default {
        Some(0)
    } else {
        match spec_first_default(methods.drop_first()) {
            Some(i) => Some(i + 1),
            None => None,
        }
    }
}

/// `spec_first_default` gives the first default method.
pub proof fn lemma_first_default(methods: Seq<SavedPaymentMethod>)
    ensures
        match spec_first_default(methods) {
            Some(i) => 0 <= i < methods.len() && methods[i].is_default && forall|j: int|
                0 <= j < i ==> !(#[trigger] methods[j]).is_default,
            None => forall|j: int| 0 <= j < methods.len() ==> !(#[trigger] methods[j]).is_default,
        },
    decreases methods.len(),
{
    if methods.len() > 0 {
        lemma_first_default(methods.drop_first());
        assert forall|j: int| 0 < j < methods.len() implies methods[j] == methods.drop_first()[j - 1] by {}
    }
}

impl PaymentService {
    /// Second stage of the access check: a subscription lookup that opens paid
    /// content grants access until the end of its period; otherwise `None` (a purchase
    /// decides next). A failed lookup is given as `None`.
    pub fn access_by_subscription(article_id: &str, user_id: &str, grant: Option<SubscriptionGrant>, now: i64) -> (r:
        Option<ContentAccess>)
        ensures
            match r {
                Some(a) => grant matches Some(g) && g.can_access_paid_content && a.article_id@ == article_id@
                    && a.user_id@ == user_id@ && a.has_access && a.access_type == AccessType::Subscription
                    && opt_string_chars(a.subscription_id) == opt_string_chars(g.subscription_id)
                    && a.granted_at == Some(now) && a.expires_at == g.current_period_end,
                None => !(grant matches Some(g) && g.can_access_paid_content),
            },
    {
        match grant {
            Some(g) => {
                if g.can_access_paid_content {
                    Some(
                        ContentAccess {
                            article_id: String::from_str(article_id),
                            user_id: String::from_str(user_id),
                            has_access: true,
                            access_type: AccessType::Subscription,
                            subscription_id: g.subscription_id,
                            granted_at: Some(now),
                            expires_at: g.current_period_end,
                        },
                    )
                } else {
                    None
                }
            },
            None => None,
        }
    }

    /// Last stage of the access check: a completed purchase grants lasting access
    /// from the time of purchase; otherwise the reader gets a preview. A failed lookup is
    /// given as `None`.
    pub fn access_by_purchase(article_id: &str, user_id: &str, purchase: Option<PurchaseRecord>) -> (a:
        ContentAccess)
        ensures
            a.article_id@ == article_id@,
            a.user_id@ == user_id@,
            a.subscription_id is None,
            a.expires_at is None,
            (purchase matches Some(p) && p.status == PurchaseStatus::Completed) ==> a.has_access && a.access_type
                == AccessType::OneTime && a.granted_at == Some(purchase->0.created_at),
            !(purchase matches Some(p) && p.status == PurchaseStatus::Completed) ==> !a.has_access && a.access_type
                == AccessType::Preview && a.granted_at is None,
    {
        match purchase {
            Some(p) => {
                if p.status == PurchaseStatus::Completed {
                    return ContentAccess {
                        article_id: String::from_str(article_id),
                        user_id: String::from_str(user_id),
                        has_access: true,
                        access_type: AccessType::OneTime,
                        subscription_id: None,
                        granted_at: Some(p.created_at),
                        expires_at: None,
                    };
                }
            },
            None => {},
        }
        ContentAccess {
            article_id: String::from_str(article_id),
            user_id: String::from_str(user_id),
            has_access: false,
            access_type: AccessType::Preview,
            subscription_id: None,
            granted_at: None,
            expires_at: None,
        }
    }

    /// The access check run in order: the article and the reader first, then the
    /// reader's subscription lookup, then the reader's purchase lookup (both read only
    /// when the first stage leaves the decision open).
    pub fn check_content_access(
        article_id: &str,
        article: &ArticleAccessInfo,
        user_id: Option<&str>,
        grant: Option<SubscriptionGrant>,
        purchase: Option<PurchaseRecord>,
        now: i64,
    ) -> (a: ContentAccess)
        ensures
            (a.has_access, a.access_type) == spec_content_access(
                article.is_paid_content,
                article.author_id@,
                opt_chars(user_id),
                grant matches Some(g) && g.can_access_paid_content,
                purchase matches Some(p) && p.status == PurchaseStatus::Completed,
            ),
            a.article_id@ == article_id@,
            a.user_id@ == (match user_id {
                Some(u) => u@,
                None => Seq::<char>::empty(),
            }),
            spec_access_by_article(article.is_paid_content, article.author_id@, opt_chars(user_id)) is Some ==> {
                &&& a.subscription_id is None
                &&& a.expires_at is None
                &&& a.granted_at == (if a.has_access {
                    Some(now)
                } else {
                    None
                })
            },
            spec_access_by_article(article.is_paid_content, article.author_id@, opt_chars(user_id)) is None && (
            grant matches Some(g) && g.can_access_paid_content) ==> {
                &&& opt_string_chars(a.subscription_id) == opt_string_chars(grant->0.subscription_id)
                &&& a.granted_at == Some(now)
                &&& a.expires_at == grant->0.current_period_end
            },
            spec_access_by_article(article.is_paid_content, article.author_id@, opt_chars(user_id)) is None && !(
            grant matches Some(g) && g.can_access_paid_content) ==> {
                &&& a.subscription_id is None
                &&& a.expires_at is None
                &&& a.granted_at == (if purchase matches Some(p) && p.status == PurchaseStatus::Completed {
                    Some(purchase->0.created_at)
                } else {
                    None
                })
            },
    {
        match Self::access_by_article(article_id, article, user_id, now) {
            Some(a) => a,
            None => {
                let u = match user_id {
                    Some(u) => u,
                    None => "",
                };
                match Self::access_by_subscription(article_id, u, grant, now) {
                    Some(a) => a,
                    None => Self::access_by_purchase(article_id, u, purchase),
                }
            },
        }
    }

    /// The pricing terms of setting an article's pricing: an article is paid when it needs a
    /// subscription or has a price; the preview share defaults to 30 percent and the
    /// paywall text to the standard one.
    pub fn pricing_terms(
        subscription_required: bool,
        price: Option<i64>,
        preview_percentage: Option<i32>,
        paywall_message: Option<String>,
    ) -> (t: PricingTerms)
        ensures
            t.is_paid_content == (subscription_required || price is Some),
            t.preview_percentage == match preview_percentage {
                Some(p) => p,
                None => 30,
            },
            t.paywall_message@ == match paywall_message {
                Some(m) => m@,
                None => spec_default_paywall_message(),
            },
    {
        PricingTerms {
            is_paid_content: subscription_required || price.is_some(),
            preview_percentage: match preview_percentage {
                Some(p) => p,
                None => 30,
            },
            paywall_message: match paywall_message {
                Some(m) => m,
                None => String::from_str("订阅以继续阅读完整内容"),
            },
        }
    }

    /// Whether a reading session counts as a complete read: more than a minute.
    pub fn reading_completed(reading_time: Option<i64>) -> (r: bool)
        ensures
            r == (reading_time matches Some(t) && t > 60),
    {
        match reading_time {
            Some(t) => t > 60,
            None => false,
        }
    }

    /// The checks of an article purchase in order: paid content, a one-off price, no
    /// completed purchase yet, no subscription that already opens it. Gives the price.
    pub fn check_purchase_allowed(
        is_paid_content: bool,
        price: Option<i64>,
        purchase_completed: bool,
        subscription_grants_access: bool,
    ) -> (r: Result<i64, PurchaseError>)
        ensures
            !is_paid_content ==> r == Err::<i64, PurchaseError>(PurchaseError::NotPaidContent),
            is_paid_content && price is None ==> r == Err::<i64, PurchaseError>(PurchaseError::NoOneOffPrice),
            is_paid_content && price is Some && purchase_completed ==> r == Err::<i64, PurchaseError>(
                PurchaseError::AlreadyPurchased,
            ),
            is_paid_content && price is Some && !purchase_completed && subscription_grants_access ==> r == Err::<
                i64,
                PurchaseError,
            >(PurchaseError::AlreadySubscribed),
            is_paid_content && price is Some && !purchase_completed && !subscription_grants_access ==> r == Ok::<
                i64,
                PurchaseError,
            >(price->0),
    {
        if !is_paid_content {
            return Err(PurchaseError::NotPaidContent);
        }
        let price = match price {
            Some(p) => p,
            None => {
                return Err(PurchaseError::NoOneOffPrice);
            },
        };
        if purchase_completed {
            return Err(PurchaseError::AlreadyPurchased);
        }
        if subscription_grants_access {
            return Err(PurchaseError::AlreadySubscribed);
        }
        Ok(price)
    }

    /// The payment method a purchase request names: the given identifier trimmed, unless
    /// it is blank.
    pub fn requested_payment_method(requested: Option<&str>) -> (r: Option<String>)
        ensures
            match requested {
                Some(pm) => if spec_trim(pm@).len() > 0 {
                    r matches Some(m) && m@ == spec_trim(pm@)
                } else {
                    r is None
                },
                None => r is None,
            },
    {
        match requested {
            None => None,
            Some(pm) => {
                let cs = chars_of(pm);
                let (lo, hi) = trim_bounds(&cs);
                if lo == hi {
                    None
                } else {
                    let t = sub_chars(&cs, lo, hi);
                    Some(string_of(&t))
                }
            },
        }
    }

    /// The payment-intent request of an article purchase: the price in `USD`, the
    /// chosen payment method, the article, no confirmation yet, and metadata naming the
    /// purchase, the article, its creator and the buyer.
    pub fn purchase_intent_request(
        purchase_id: &str,
        article_id: &str,
        creator_id: &str,
        buyer_id: &str,
        price: i64,
        payment_method_id: &str,
    ) -> (r: PurchaseIntentRequest)
        ensures
            r.amount == price,
            r.currency@ == "USD"@,
            r.payment_method_id@ == payment_method_id@,
            r.article_id@ == article_id@,
            !r.confirm,
            spec_pairs(r.metadata@) == spec_purchase_metadata(purchase_id@, article_id@, creator_id@, buyer_id@),
    {
        let mut metadata: Vec<(String, String)> = Vec::new();
        metadata.push((String::from_str("purchase_id"), String::from_str(purchase_id)));
        metadata.push((String::from_str("article_id"), String::from_str(article_id)));
        metadata.push((String::from_str("creator_id"), String::from_str(creator_id)));
        metadata.push((String::from_str("buyer_id"), String::from_str(buyer_id)));
        assert(spec_pairs(metadata@) =~= spec_purchase_metadata(purchase_id@, article_id@, creator_id@, buyer_id@));
        PurchaseIntentRequest {
            amount: price,
            currency: String::from_str("USD"),
            payment_method_id: String::from_str(payment_method_id),
            article_id: String::from_str(article_id),
            confirm: false,
            metadata,
        }
    }

    /// The purchase stored once its payment intent exists: pending, for the price in the
    /// request's currency, tied to the intent.
    pub fn pending_purchase(
        purchase_id: &str,
        buyer_id: &str,
        creator_id: &str,
        request: &PurchaseIntentRequest,
        stripe_payment_intent_id: &str,
    ) -> (r: PurchaseRow)
        ensures
            r.purchase_id@ == purchase_id@,
            r.article_id@ == request.article_id@,
            r.buyer_id@ == buyer_id@,
            r.creator_id@ == creator_id@,
            r.amount == request.amount,
            r.currency@ == request.currency@,
            r.stripe_payment_intent_id@ == stripe_payment_intent_id@,
            r.status == PurchaseStatus::Pending,
    {
        PurchaseRow {
            purchase_id: String::from_str(purchase_id),
            article_id: request.article_id.clone(),
            buyer_id: String::from_str(buyer_id),
            creator_id: String::from_str(creator_id),
            amount: request.amount,
            currency: request.currency.clone(),
            stripe_payment_intent_id: String::from_str(stripe_payment_intent_id),
            status: PurchaseStatus::Pending,
        }
    }

    /// The payment method a purchase is charged to: the one the request names, trimmed,
    /// unless it is blank; else the buyer's first saved method marked as default; else
    /// the purchase is refused.
    pub fn purchase_payment_method(requested: Option<&str>, methods: &Vec<SavedPaymentMethod>) -> (r: Result<
        String,
        PurchaseError,
    >)
        ensures
            match requested {
                Some(pm) if spec_trim(pm@).len() > 0 => r matches Ok(m) && m@ == spec_trim(pm@),
                _ => match spec_first_default(methods@) {
                    Some(i) => r matches Ok(m) && m@ == methods@[i].stripe_payment_method_id@,
                    None => r == Err::<String, PurchaseError>(PurchaseError::NoPaymentMethod),
                },
            },
    {
        match Self::requested_payment_method(requested) {
            Some(m) => Ok(m),
            None => match Self::default_payment_method(methods) {
                Some(m) => Ok(m),
                None => Err(PurchaseError::NoPaymentMethod),
            },
        }
    }

    /// The identifier of the first saved payment method marked as default, if any.
    pub fn default_payment_method(methods: &Vec<SavedPaymentMethod>) -> (r: Option<String>)
        ensures
            match spec_first_default(methods@) {
                Some(i) => r matches Some(m) && m@ == methods@[i].stripe_payment_method_id@,
                None => r is None,
            },
    {
        let mut i: usize = 0;
        while i < methods.len()
            invariant
                i <= methods.len(),
                forall|j: int| 0 <= j < i ==> !(#[trigger] methods@[j]).is_default,
            decreases methods.len() - i,
        {
            if methods[i].is_default {
                proof {
                    lemma_first_default(methods@);
                    match spec_first_default(methods@) {
                        Some(k) => {
                            if k < i {
                                assert(!methods@[k].is_default);
                            } else if k > i {
                                assert(!methods@[i as int].is_default);
                            }
                        },
                        None => {
                            assert(!methods@[i as int].is_default);
                        },
                    }
                }
                return Some(methods[i].stripe_payment_method_id.clone());
            }
            i = i + 1;
        }
        proof {
            lemma_first_default(methods@);
            if let Some(k) = spec_first_default(methods@) {
                assert(!methods@[k].is_default);
            }
        }
        None
    }

    /// Whether a subscription in this status keeps the subscriber's access to the
    /// creator's paid articles (active or past due) or revokes it (cancelled or expired).
    pub fn subscription_keeps_access(status: SubscriptionStatus) -> (r: bool)
        ensures
            r == (status == SubscriptionStatus::Active || status == SubscriptionStatus::PastDue),
    {
        match status {
            SubscriptionStatus::Active | SubscriptionStatus::PastDue => true,
            SubscriptionStatus::Canceled | SubscriptionStatus::Expired => false,
        }
    }

    /// The stored name of an access type when a reading is recorded.
    pub fn access_type_name(access_type: AccessType) -> (r: &'static str)
        ensures
            access_type == AccessType::Free ==> r@ == "free"@,
            access_type == AccessType::Subscription ==> r@ == "subscription"@,
            access_type == AccessType::OneTime ==> r@ == "one_time"@,
            access_type == AccessType::Author ==> r@ == "author"@,
            access_type == AccessType::Preview ==> r@ == "preview"@,
    {
        match access_type {
            AccessType::Free => "free",
            AccessType::Subscription => "subscription",
            AccessType::OneTime => "one_time",
            AccessType::Author => "author",
            AccessType::Preview => "preview",
        }
    }

    /// The stored kind of a paid-access grant: a subscription grant or a one-off purchase.
    pub fn grant_kind_name(access_type: AccessType) -> (r: &'static str)
        ensures
            access_type == AccessType::Subscription ==> r@ == "subscription"@,
            access_type != AccessType::Subscription ==> r@ == "one_time_purchase"@,
    {
        match access_type {
            AccessType::Subscription => "subscription",
            _ => "one_time_purchase",
        }
    }
}

} // verus!
