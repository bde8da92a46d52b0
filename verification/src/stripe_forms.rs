//! The form bodies of the payment provider's API requests, field by field in order.

use crate::stripe::{ConnectAccountType, StripeService};
use crate::error::ErrorKind;
use crate::text::{i64_to_string, spec_decimal, str_eq, to_lowercase, to_uppercase, unicode_lowercase, unicode_uppercase};
use vstd::prelude::*;

verus! {

/// The fields of a form body as text pairs.
pub open spec fn spec_pairs(v: Seq<(String, String)>) -> Seq<(Seq<char>, Seq<char>)> {
    Seq::new(v.len(), |i: int| (v[i].0@, v[i].1@))
}

/// A request's metadata as it arrives: none, the entries of a JSON object (string values
/// as they are, other values as JSON text), or some other JSON value.
pub enum IntentMetadata {
    Absent,
    Object(Vec<(String, String)>),
    NotObject,
}

/// Why a request's metadata was refused.
#[derive(Clone, Copy, Debug, PartialEq, Eq, Structural)]
pub enum MetadataError {
    /// The metadata is a JSON value other than an object.
    NotAnObject,
}

impl MetadataError {
    /// The category under which the refusal is reported.
    pub fn kind(&self) -> (k: ErrorKind)
        ensures
            k == ErrorKind::BadRequest,
    {
        ErrorKind::BadRequest
    }
}

/// Whether some entry has the key `k`.
pub open spec fn spec_has_key(s: Seq<(Seq<char>, Seq<char>)>, k: Seq<char>) -> bool {
    exists|i: int| 0 <= i < s.len() && (#[trigger] s[i]).0 == k
}

/// The entries with `(k, v)` added when no entry has the key `k` yet.
pub open spec fn spec_with_default(s: Seq<(Seq<char>, Seq<char>)>, k: Seq<char>, v: Seq<char>) -> Seq<
    (Seq<char>, Seq<char>),
> {
    if spec_has_key(s, k) {
        s
    } else {
        s.push((k, v))
    }
}

/// The metadata of an intent request: the given entries, with the user's id under
/// `user_id` and the article's id under `article_id` (when there is an article) where the
/// entries name none.
pub open spec fn spec_prepared_metadata(m: Seq<(Seq<char>, Seq<char>)>, user_id: Seq<char>, article_id: Option<
    Seq<char>,
>) -> Seq<(Seq<char>, Seq<char>)> {
    let with_user = spec_with_default(m, "user_id"@, user_id);
    match article_id {
        Some(a) => spec_with_default(with_user, "article_id"@, a),
        None => with_user,
    }
}

/// Adds `(key, value)` unless an entry has the key already.
fn set_default(v: &mut Vec<(String, String)>, key: &str, value: &str)
    ensures
        spec_pairs(final(v)@) == spec_with_default(spec_pairs(old(v)@), key@, value@),
{
    let mut i: usize = 0;
    let mut found = false;
    while i < v.len()
        invariant
            i <= v@.len(),
            found == exists|j: int| 0 <= j < i && (#[trigger] v@[j]).0@ == key@,
        decreases v.len() - i,
    {
        if str_eq(v[i].0.as_str(), key) {
            found = true;
        }
        i = i + 1;
    }
    if found {
        proof {
            let j = choose|j: int| 0 <= j < v@.len() && (#[trigger] v@[j]).0@ == key@;
            assert(spec_pairs(v@)[j].0 == key@);
        }
    } else {
        assert(!spec_has_key(spec_pairs(v@), key@)) by {
            if spec_has_key(spec_pairs(v@), key@) {
                let j = choose|j: int| 0 <= j < spec_pairs(v@).len() && (#[trigger] spec_pairs(v@)[j]).0 == key@;
                assert(v@[j].0@ == key@);
            }
        }
        push_pair(v, key, String::from_str(value));
    }
}

impl StripeService {
    /// The metadata of a payment-intent request: an object's entries, or none when
    /// no metadata was given, with the user's id and the article's id added under
    /// `user_id` and `article_id` where absent; metadata of another kind is refused.
    pub fn prepare_intent_metadata(metadata: IntentMetadata, user_id: &str, article_id: Option<&str>) -> (r: Result<
        Vec<(String, String)>,
        MetadataError,
    >)
        ensures
            match metadata {
                IntentMetadata::NotObject => r == Err::<Vec<(String, String)>, MetadataError>(MetadataError::NotAnObject),
                IntentMetadata::Absent => r matches Ok(v) && spec_pairs(v@) == spec_prepared_metadata(
                    Seq::empty(),
                    user_id@,
                    spec_opt(article_id),
                ),
                IntentMetadata::Object(m) => r matches Ok(v) && spec_pairs(v@) == spec_prepared_metadata(
                    spec_pairs(m@),
                    user_id@,
                    spec_opt(article_id),
                ),
            },
    {
        let mut v = match metadata {
            IntentMetadata::NotObject => {
                return Err(MetadataError::NotAnObject);
            },
            IntentMetadata::Absent => Vec::new(),
            IntentMetadata::Object(m) => m,
        };
        proof {
            reveal_strlit("user_id");
            reveal_strlit("article_id");
        }
        assert(spec_pairs(v@) =~= match metadata {
            IntentMetadata::Object(m) => spec_pairs(m@),
            _ => Seq::empty(),
        });
        set_default(&mut v, "user_id", user_id);
        match article_id {
            Some(a) => set_default(&mut v, "article_id", a),
            None => {},
        }
        Ok(v)
    }
}

/// The fields of a request's metadata entries: each key as `metadata[key]`.
pub open spec fn spec_metadata_pairs(m: Seq<(String, String)>) -> Seq<(Seq<char>, Seq<char>)> {
    Seq::new(m.len(), |i: int| ("metadata["@ + m[i].0@ + "]"@, m[i].1@))
}

/// One field when a value is given, none otherwise.
pub open spec fn spec_opt_pair(key: Seq<char>, value: Option<Seq<char>>) -> Seq<(Seq<char>, Seq<char>)> {
    match value {
        Some(v) => seq![(key, v)],
        None => Seq::empty(),
    }
}

/// The characters of an optional string slice.
pub open spec fn spec_opt(s: Option<&str>) -> Option<Seq<char>> {
    match s {
        Some(t) => Some(t@),
        None => None,
    }
}

/// The text of a boolean in a form body.
pub open spec fn spec_bool_field(b: bool) -> Seq<char> {
    if b {
        "true"@
    } else {
        "false"@
    }
}

/// The provider's name of a connected-account kind.
pub open spec fn spec_account_type_name(t: ConnectAccountType) -> Seq<char> {
    match t {
        ConnectAccountType::Express => "express"@,
        ConnectAccountType::Standard => "standard"@,
        ConnectAccountType::Custom => "custom"@,
    }
}

/// Appends one field.
fn push_pair(v: &mut Vec<(String, String)>, key: &str, value: String)
    ensures
        spec_pairs(final(v)@) == spec_pairs(old(v)@).push((key@, value@)),
{
    v.push((String::from_str(key), value));
    assert(spec_pairs(v@) =~= spec_pairs(old(v)@).push((key@, value@)));
}

/// Appends one field when a value is given.
fn push_opt_pair(v: &mut Vec<(String, String)>, key: &str, value: Option<&str>)
    ensures
        spec_pairs(final(v)@) == spec_pairs(old(v)@) + spec_opt_pair(key@, spec_opt(value)),
{
    match value {
        Some(x) => push_pair(v, key, String::from_str(x)),
        None => {},
    }
    assert(spec_pairs(v@) =~= spec_pairs(old(v)@) + spec_opt_pair(key@, spec_opt(value)));
}

/// Appends the metadata entries, in order.
fn append_metadata(v: &mut Vec<(String, String)>, metadata: &Vec<(String, String)>)
    ensures
        spec_pairs(final(v)@) == spec_pairs(old(v)@) + spec_metadata_pairs(metadata@),
{
    let ghost start = spec_pairs(v@);
    let mut i: usize = 0;
    assert(spec_metadata_pairs(metadata@.take(0)) =~= Seq::<(Seq<char>, Seq<char>)>::empty());
    assert(start + Seq::<(Seq<char>, Seq<char>)>::empty() =~= start);
    while i < metadata.len()
        invariant
            i <= metadata@.len(),
            spec_pairs(v@) == start + spec_metadata_pairs(metadata@.take(i as int)),
        decreases metadata.len() - i,
    {
        let mut key = String::from_str("metadata[");
        key.append(metadata[i].0.as_str());
        key.append("]");
        let ghost before = spec_pairs(v@);
        v.push((key, metadata[i].1.clone()));
        assert(spec_pairs(v@) =~= before.push(("metadata["@ + metadata@[i as int].0@ + "]"@, metadata@[i as int].1@)));
        assert(spec_metadata_pairs(metadata@.take(i + 1)) =~= spec_metadata_pairs(metadata@.take(i as int)).push(
            ("metadata["@ + metadata@[i as int].0@ + "]"@, metadata@[i as int].1@),
        ));
        i = i + 1;
    }
    assert(metadata@.take(metadata@.len() as int) =~= metadata@);
}

impl StripeService {
    /// The body of a payment-intent request: amount,
    /// currency, customer, automatic payment methods, then the payment method and the
    /// confirmation flag when given, then the metadata.
    pub fn payment_intent_params(
        customer_id: &str,
        amount: i64,
        currency: &str,
        payment_method_id: Option<&str>,
        confirm: Option<bool>,
        metadata: &Vec<(String, String)>,
    ) -> (r: Vec<(String, String)>)
        ensures
            spec_pairs(r@) == seq![
                ("amount"@, spec_decimal(amount as int)),
                ("currency"@, currency@),
                ("customer"@, customer_id@),
                ("automatic_payment_methods[enabled]"@, "true"@),
            ] + spec_opt_pair("payment_method"@, spec_opt(payment_method_id)) + spec_opt_pair(
                "confirm"@,
                match confirm {
                    Some(b) => Some(spec_bool_field(b)),
                    None => None,
                },
            ) + spec_metadata_pairs(metadata@),
    {
        let mut v: Vec<(String, String)> = Vec::new();
        push_pair(&mut v, "amount", i64_to_string(amount));
        push_pair(&mut v, "currency", String::from_str(currency));
        push_pair(&mut v, "customer", String::from_str(customer_id));
        push_pair(&mut v, "automatic_payment_methods[enabled]", String::from_str("true"));
        push_opt_pair(&mut v, "payment_method", payment_method_id);
        let flag: Option<&str> = match confirm {
            Some(b) => if b {
                Some("true")
            } else {
                Some("false")
            },
            None => None,
        };
        push_opt_pair(&mut v, "confirm", flag);
        append_metadata(&mut v, metadata);
        v
    }

    /// The body of a setup-intent request: customer,
    /// off-session use by card, then the metadata.
    pub fn setup_intent_params(customer_id: &str, metadata: &Vec<(String, String)>) -> (r: Vec<(String, String)>)
        ensures
            spec_pairs(r@) == seq![
                ("customer"@, customer_id@),
                ("usage"@, "off_session"@),
                ("payment_method_types[]"@, "card"@),
            ] + spec_metadata_pairs(metadata@),
    {
        let mut v: Vec<(String, String)> = Vec::new();
        push_pair(&mut v, "customer", String::from_str(customer_id));
        push_pair(&mut v, "usage", String::from_str("off_session"));
        push_pair(&mut v, "payment_method_types[]", String::from_str("card"));
        append_metadata(&mut v, metadata);
        v
    }

    /// The body of a customer request: e-mail, then the name
    /// when given.
    pub fn customer_params(email: &str, name: Option<&str>) -> (r: Vec<(String, String)>)
        ensures
            spec_pairs(r@) == seq![("email"@, email@)] + spec_opt_pair("name"@, spec_opt(name)),
    {
        let mut v: Vec<(String, String)> = Vec::new();
        push_pair(&mut v, "email", String::from_str(email));
        push_opt_pair(&mut v, "name", name);
        v
    }

    /// The body of a subscription request (a provider subscription request): customer and
    /// price, then the default payment method, trial days and coupon when given, then the
    /// metadata.
    pub fn subscription_params(
        customer_id: &str,
        price_id: &str,
        payment_method_id: Option<&str>,
        trial_period_days: Option<i64>,
        coupon: Option<&str>,
        metadata: &Vec<(String, String)>,
    ) -> (r: Vec<(String, String)>)
        ensures
            spec_pairs(r@) == seq![("customer"@, customer_id@), ("items[0][price]"@, price_id@)] + spec_opt_pair(
                "default_payment_method"@,
                spec_opt(payment_method_id),
            ) + spec_opt_pair(
                "trial_period_days"@,
                match trial_period_days {
                    Some(d) => Some(spec_decimal(d as int)),
                    None => None,
                },
            ) + spec_opt_pair("coupon"@, spec_opt(coupon)) + spec_metadata_pairs(metadata@),
    {
        let mut v: Vec<(String, String)> = Vec::new();
        push_pair(&mut v, "customer", String::from_str(customer_id));
        push_pair(&mut v, "items[0][price]", String::from_str(price_id));
        push_opt_pair(&mut v, "default_payment_method", payment_method_id);
        match trial_period_days {
            Some(d) => push_pair(&mut v, "trial_period_days", i64_to_string(d)),
            None => {},
        }
        push_opt_pair(&mut v, "coupon", coupon);
        append_metadata(&mut v, metadata);
        v
    }

    /// The body of a connected-account request: kind,
    /// country in upper case, e-mail, then the business type when given, then the
    /// metadata.
    pub fn connect_account_params(
        account_type: ConnectAccountType,
        country: &str,
        email: &str,
        business_type: Option<&str>,
        metadata: &Vec<(String, String)>,
    ) -> (r: Vec<(String, String)>)
        ensures
            spec_pairs(r@) == seq![
                ("type"@, spec_account_type_name(account_type)),
                ("country"@, unicode_uppercase(country@)),
                ("email"@, email@),
            ] + spec_opt_pair("business_type"@, spec_opt(business_type)) + spec_metadata_pairs(metadata@),
    {
        let name: &str = match account_type {
            ConnectAccountType::Express => "express",
            ConnectAccountType::Standard => "standard",
            ConnectAccountType::Custom => "custom",
        };
        let mut v: Vec<(String, String)> = Vec::new();
        push_pair(&mut v, "type", String::from_str(name));
        push_pair(&mut v, "country", to_uppercase(country));
        push_pair(&mut v, "email", String::from_str(email));
        push_opt_pair(&mut v, "business_type", business_type);
        append_metadata(&mut v, metadata);
        v
    }

    /// The body of an onboarding-link request; none when
    /// the refresh or return address is not configured.
    pub fn account_link_params(stripe_account_id: &str, refresh_url: Option<&str>, return_url: Option<&str>) -> (r:
        Option<Vec<(String, String)>>)
        ensures
            (refresh_url is None || return_url is None) ==> r is None,
            (refresh_url is Some && return_url is Some) ==> (r matches Some(v) && spec_pairs(v@)
                == seq![
                ("account"@, stripe_account_id@),
                ("refresh_url"@, refresh_url->0@),
                ("return_url"@, return_url->0@),
                ("type"@, "account_onboarding"@),
            ]),
    {
        let ret = match return_url {
            Some(t) => t,
            None => {
                return None;
            },
        };
        let refresh = match refresh_url {
            Some(f) => f,
            None => {
                return None;
            },
        };
        let mut v: Vec<(String, String)> = Vec::new();
        push_pair(&mut v, "account", String::from_str(stripe_account_id));
        push_pair(&mut v, "refresh_url", String::from_str(refresh));
        push_pair(&mut v, "return_url", String::from_str(ret));
        push_pair(&mut v, "type", String::from_str("account_onboarding"));
        Some(v)
    }

    /// The body of a plan's product request (a new plan): name, a
    /// service product, the plan and the creator, then the description when given.
    pub fn plan_product_params(plan_id: &str, creator_id: &str, name: &str, description: Option<&str>) -> (r: Vec<
        (String, String),
    >)
        ensures
            spec_pairs(r@) == seq![
                ("name"@, name@),
                ("type"@, "service"@),
                ("metadata[plan_id]"@, plan_id@),
                ("metadata[creator_id]"@, creator_id@),
            ] + spec_opt_pair("description"@, spec_opt(description)),
    {
        let mut v: Vec<(String, String)> = Vec::new();
        push_pair(&mut v, "name", String::from_str(name));
        push_pair(&mut v, "type", String::from_str("service"));
        push_pair(&mut v, "metadata[plan_id]", String::from_str(plan_id));
        push_pair(&mut v, "metadata[creator_id]", String::from_str(creator_id));
        push_opt_pair(&mut v, "description", description);
        v
    }

    /// The body of a monthly price request for a product (a price request):
    /// product, currency in lower case, amount, monthly.
    pub fn product_price_params(product_id: &str, amount: i64, currency: &str) -> (r: Vec<(String, String)>)
        ensures
            spec_pairs(r@) == seq![
                ("product"@, product_id@),
                ("currency"@, unicode_lowercase(currency@)),
                ("unit_amount"@, spec_decimal(amount as int)),
                ("recurring[interval]"@, "month"@),
            ],
    {
        let mut v: Vec<(String, String)> = Vec::new();
        push_pair(&mut v, "product", String::from_str(product_id));
        push_pair(&mut v, "currency", to_lowercase(currency));
        push_pair(&mut v, "unit_amount", i64_to_string(amount));
        push_pair(&mut v, "recurring[interval]", String::from_str("month"));
        v
    }

    /// The body of a plan's monthly price request (a new plan): the
    /// product's price fields, then the plan and the creator.
    pub fn plan_price_params(product_id: &str, amount: i64, currency: &str, plan_id: &str, creator_id: &str) -> (r:
        Vec<(String, String)>)
        ensures
            spec_pairs(r@) == seq![
                ("product"@, product_id@),
                ("currency"@, unicode_lowercase(currency@)),
                ("unit_amount"@, spec_decimal(amount as int)),
                ("recurring[interval]"@, "month"@),
                ("metadata[plan_id]"@, plan_id@),
                ("metadata[creator_id]"@, creator_id@),
            ],
    {
        let mut v = Self::product_price_params(product_id, amount, currency);
        push_pair(&mut v, "metadata[plan_id]", String::from_str(plan_id));
        push_pair(&mut v, "metadata[creator_id]", String::from_str(creator_id));
        v
    }

    /// The body of a product update: the name and the
    /// description when given; none when neither is, and nothing is sent.
    pub fn product_update_params(name: Option<&str>, description: Option<&str>) -> (r: Option<Vec<(String, String)>>)
        ensures
            (name is None && description is None) ==> r is None,
            !(name is None && description is None) ==> (r matches Some(v) && spec_pairs(v@) == spec_opt_pair(
                "name"@,
                spec_opt(name),
            ) + spec_opt_pair("description"@, spec_opt(description))),
    {
        if name.is_none() && description.is_none() {
            return None;
        }
        let mut v: Vec<(String, String)> = Vec::new();
        assert(spec_pairs(v@) =~= Seq::<(Seq<char>, Seq<char>)>::empty());
        push_opt_pair(&mut v, "name", name);
        push_opt_pair(&mut v, "description", description);
        Some(v)
    }
}

} // verus!
