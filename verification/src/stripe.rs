//! Payment-provider rules: webhook signatures, payment requests and status vocabularies.

use crate::error::ErrorKind;
use crate::payment::SavedPaymentMethod;
use crate::subscription::SubscriptionStatus;
use crate::text::{
    ascii_uppercase, chars_of, find_char, spec_ascii_uppercase, str_eq, i64_to_string, parse_i64, push_char, spec_decimal, spec_find, spec_parse_i64,
    spec_split, spec_trim, spec_views, lemma_find, split_on, string_of, sub_chars, trim_bounds,
};
use hmac::{Hmac, Mac};
use sha2::Sha256;
use vstd::prelude::*;
use vstd::utf8::encode_utf8;

verus! {

/// Credentials and protocol settings of the payment provider.
pub struct StripeConfig {
    pub secret_key: String,
    pub webhook_endpoint_secret: String,
    pub api_version: String,
}

/// The provider API version the integration speaks.
pub open spec fn spec_default_api_version() -> Seq<char> {
    "2023-10-16"@
}

impl Default for StripeConfig {
    /// No credentials yet, and the API version `2023-10-16`.
    fn default() -> (c: Self)
        ensures
            c.secret_key@ == Seq::<char>::empty(),
            c.webhook_endpoint_secret@ == Seq::<char>::empty(),
            c.api_version@ == spec_default_api_version(),
    {
        StripeConfig { secret_key: String::new(), webhook_endpoint_secret: String::new(), api_version: String::from_str("2023-10-16") }
    }
}

/// The payment-provider integration.
pub struct StripeService {
    pub config: StripeConfig,
}

/// A completed one-off article purchase that a webhook event reported.
pub struct StripePurchaseUpdate {
    pub stripe_payment_intent_id: String,
    pub buyer_id: String,
    pub creator_id: String,
    pub article_id: String,
    pub purchase_id: Option<String>,
    pub amount: i64,
    pub currency: String,
}

/// Why a webhook delivery was refused.
#[derive(Clone, Copy, Debug, PartialEq, Eq, Structural)]
pub enum WebhookError {
    /// No signing secret is configured.
    SecretNotConfigured,
    /// The signature header has no usable `t=` timestamp.
    MissingTimestamp,
    /// The system clock reads before the Unix epoch.
    ClockUnavailable,
    /// The timestamp is more than five minutes away from now.
    Expired,
    /// The signature header has no `v1=` signature.
    MissingSignature,
    /// No `v1=` signature matches the payload.
    SignatureMismatch,
}

impl WebhookError {
    /// The category under which the refusal is reported.
    pub open spec fn spec_kind(self) -> ErrorKind {
        match self {
            WebhookError::SecretNotConfigured => ErrorKind::ServiceUnavailable,
            WebhookError::MissingTimestamp => ErrorKind::BadRequest,
            WebhookError::ClockUnavailable => ErrorKind::Internal,
            WebhookError::Expired => ErrorKind::Authorization,
            WebhookError::MissingSignature => ErrorKind::BadRequest,
            WebhookError::SignatureMismatch => ErrorKind::Authorization,
        }
    }

    /// The category under which the refusal is reported.
    pub fn kind(&self) -> (k: ErrorKind)
        ensures
            k == self.spec_kind(),
    {
        match self {
            WebhookError::SecretNotConfigured => ErrorKind::ServiceUnavailable,
            WebhookError::MissingTimestamp => ErrorKind::BadRequest,
            WebhookError::ClockUnavailable => ErrorKind::Internal,
            WebhookError::Expired => ErrorKind::Authorization,
            WebhookError::MissingSignature => ErrorKind::BadRequest,
            WebhookError::SignatureMismatch => ErrorKind::Authorization,
        }
    }
}

/// Seconds of drift allowed between a webhook's timestamp and the local clock.
pub const WEBHOOK_TOLERANCE_SECONDS: i64 = 300;

/// The key and value of one `key=value` element of a signature header: the element is
/// trimmed and cut at its first `=`; without `=` the value is empty.
pub open spec fn spec_part_fields(part: Seq<char>) -> (Seq<char>, Seq<char>) {
    let t = spec_trim(part);
    match spec_find(t, '=') {
        Some(i) => (t.take(i), t.skip(i + 1)),
        None => (t, Seq::<char>::empty()),
    }
}

/// The timestamp a signature header carries: the last `t=` element decides, parsed as `i64`.
pub open spec fn spec_header_timestamp(parts: Seq<Seq<char>>) -> Option<int>
    decreases parts.len(),
{
    if parts.len() == 0 {
        None
    } else {
        let kv = spec_part_fields(parts.last());
        if kv.0 == seq!['t'] {
            spec_parse_i64(kv.1)
        } else {
            spec_header_timestamp(parts.drop_last())
        }
    }
}

/// The `v1=` signatures of a signature header, in order.
pub open spec fn spec_header_signatures(parts: Seq<Seq<char>>) -> Seq<Seq<char>>
    decreases parts.len(),
{
    if parts.len() == 0 {
        Seq::empty()
    } else {
        let kv = spec_part_fields(parts.last());
        let rest = spec_header_signatures(parts.drop_last());
        if kv.0 == seq!['v', '1'] {
            rest.push(kv.1)
        } else {
            rest
        }
    }
}

/// Whether a byte is an ASCII hexadecimal digit of either case.
pub open spec fn spec_is_hex_byte(b: u8) -> bool {
    (48 <= b <= 57) || (97 <= b <= 102) || (65 <= b <= 70)
}

/// The value of an ASCII hexadecimal digit.
pub open spec fn spec_hex_value(b: u8) -> int {
    if 48 <= b <= 57 {
        b - 48
    } else if 97 <= b <= 102 {
        b - 87
    } else {
        b - 55
    }
}

/// What `hex::decode` gives: for an even number of hexadecimal digits, the bytes that
/// each pair denotes (high digit first); nothing otherwise.
pub open spec fn spec_hex_decode(s: Seq<u8>) -> Option<Seq<u8>> {
    if s.len() % 2 == 0 && forall|i: int| 0 <= i < s.len() ==> spec_is_hex_byte(#[trigger] s[i]) {
        Some(
            Seq::new(
                (s.len() / 2) as nat,
                |i: int| (spec_hex_value(s[2 * i]) * 16 + spec_hex_value(s[2 * i + 1])) as u8,
            ),
        )
    } else {
        None
    }
}

/// Decodes hexadecimal text (`hex::decode`); the decoding error becomes `None`.
#[verifier::external_body]
fn hex_decode(s: &str) -> (r: Option<Vec<u8>>)
    ensures
        match r {
            Some(v) => spec_hex_decode(encode_utf8(s@)) == Some(v@),
            None => spec_hex_decode(encode_utf8(s@)) is None,
        },
{
    hex::decode(s).ok()
}

/// The HMAC-SHA256 tag of `message` under `key`.
pub uninterp spec fn hmac_sha256(key: Seq<u8>, message: Seq<u8>) -> Seq<u8>;

/// Whether `tag` is the HMAC-SHA256 tag of `message` under `key` (`Mac::verify_slice`
/// after `new_from_slice` and `update`; HMAC takes keys of any length).
#[verifier::external_body]
fn hmac_sha256_verify(key: &[u8], message: &[u8], tag: &[u8]) -> (ok: bool)
    ensures
        ok == (tag@ == hmac_sha256(key@, message@)),
{
    match <Hmac<Sha256> as Mac>::new_from_slice(key) {
        Ok(mut mac) => {
            mac.update(message);
            mac.verify_slice(tag).is_ok()
        },
        Err(_) => false,
    }
}

/// Seconds since the Unix epoch by the system clock; `None` when the clock reads
/// earlier than the epoch. Nothing is promised of the value: it is the time.
#[verifier::external_body]
fn unix_seconds_now() -> Option<u64> {
    std::time::SystemTime::now().duration_since(std::time::UNIX_EPOCH).ok().map(|d| d.as_secs())
}

/// The text that the provider signs: the timestamp in decimal, a dot, the payload.
pub open spec fn spec_signed_payload(timestamp: int, payload: Seq<char>) -> Seq<char> {
    spec_decimal(timestamp) + seq!['.'] + payload
}

/// Whether a `v1=` signature is the hexadecimal HMAC-SHA256 tag of the signed payload.
pub open spec fn spec_signature_valid(key: Seq<u8>, message: Seq<u8>, signature: Seq<char>) -> bool {
    match spec_hex_decode(encode_utf8(signature)) {
        Some(tag) => tag == hmac_sha256(key, message),
        None => false,
    }
}

/// The absolute value of an integer.
pub open spec fn spec_abs(x: int) -> int {
    if x < 0 { -x } else { x }
}

/// The verdict on a webhook delivery with the given secret, payload, signature header and
/// clock reading, checked in this order: a configured (trimmed, non-empty) secret; a
/// timestamp; a clock; a timestamp within five minutes of now; at least one `v1=`
/// signature; one signature that matches.
pub open spec fn spec_webhook_verdict(
    secret: Seq<char>,
    payload: Seq<char>,
    header: Seq<char>,
    now: Option<u64>,
) -> Result<(), WebhookError> {
    let key = spec_trim(secret);
    let parts = spec_split(header, ',');
    if key.len() == 0 {
        Err(WebhookError::SecretNotConfigured)
    } else {
        match spec_header_timestamp(parts) {
            None => Err(WebhookError::MissingTimestamp),
            Some(ts) => match now {
                None => Err(WebhookError::ClockUnavailable),
                Some(secs) => {
                    let sigs = spec_header_signatures(parts);
                    let message = encode_utf8(spec_signed_payload(ts, payload));
                    if spec_abs((secs as i64) as int - ts) > 300 {
                        Err(WebhookError::Expired)
                    } else if sigs.len() == 0 {
                        Err(WebhookError::MissingSignature)
                    } else if exists|i: int|
                        0 <= i < sigs.len() && spec_signature_valid(
                            encode_utf8(key),
                            message,
                            #[trigger] sigs[i],
                        ) {
                        Ok(())
                    } else {
                        Err(WebhookError::SignatureMismatch)
                    }
                },
            },
        }
    }
}

/// The key and value of one element of a signature header.
fn part_fields(part: &Vec<char>) -> (r: (Vec<char>, Vec<char>))
    ensures
        (r.0@, r.1@) == spec_part_fields(part@),
{
    let (lo, hi) = trim_bounds(part);
    let t = sub_chars(part, lo, hi);
    match find_char(&t, '=') {
        Some(i) => {
            proof {
                lemma_find(t@, '=');
            }
            let k = sub_chars(&t, 0, i);
            let v = sub_chars(&t, i + 1, t.len());
            assert(k@ =~= t@.take(i as int));
            assert(v@ =~= t@.skip(i + 1));
            (k, v)
        },
        None => (t, Vec::new()),
    }
}

/// Whether the characters are exactly `t`.
fn is_t_key(k: &Vec<char>) -> (r: bool)
    ensures
        r == (k@ == seq!['t']),
{
    let r = k.len() == 1 && k[0] == 't';
    assert(r ==> k@ =~= seq!['t']);
    r
}

/// Whether the characters are exactly `v1`.
fn is_v1_key(k: &Vec<char>) -> (r: bool)
    ensures
        r == (k@ == seq!['v', '1']),
{
    let r = k.len() == 2 && k[0] == 'v' && k[1] == '1';
    assert(r ==> k@ =~= seq!['v', '1']);
    r
}

/// Checks a webhook delivery against the signing secret, given the clock reading `now`
/// (seconds since the Unix epoch, `None` when the clock is before it).
#[verifier::loop_isolation(false)]
pub fn check_webhook_signature(secret: &str, payload: &str, signature_header: &str, now: Option<u64>) -> (r:
    Result<(), WebhookError>)
    ensures
        r == spec_webhook_verdict(secret@, payload@, signature_header@, now),
{
    let secret_chars = chars_of(secret);
    let (lo, hi) = trim_bounds(&secret_chars);
    if lo == hi {
        return Err(WebhookError::SecretNotConfigured);
    }
    let key_str: &str = secret.substring_char(lo, hi);
    let header_chars = chars_of(signature_header);
    let parts = split_on(&header_chars, ',');
    let ghost pv = spec_views(parts@);
    let mut timestamp: Option<i64> = None;
    let mut signatures: Vec<Vec<char>> = Vec::new();
    let mut i: usize = 0;
    assert(pv.take(0) =~= Seq::<Seq<char>>::empty());
    assert(spec_views(signatures@) =~= Seq::<Seq<char>>::empty());
    while i < parts.len()
        invariant
            i <= parts.len(),
            pv == spec_views(parts@),
            match timestamp {
                Some(t) => spec_header_timestamp(pv.take(i as int)) == Some(t as int),
                None => spec_header_timestamp(pv.take(i as int)) is None,
            },
            spec_views(signatures@) == spec_header_signatures(pv.take(i as int)),
        decreases parts.len() - i,
    {
        let (k, v) = part_fields(&parts[i]);
        assert(pv.take(i + 1).drop_last() =~= pv.take(i as int));
        assert(pv.take(i + 1).last() == parts@[i as int]@);
        if is_t_key(&k) {
            timestamp = parse_i64(&v);
        } else if is_v1_key(&k) {
            let ghost before = spec_views(signatures@);
            signatures.push(v);
            assert(spec_views(signatures@) =~= before.push(v@));
        }
        i = i + 1;
    }
    assert(pv.take(parts.len() as int) =~= pv);
    let ts: i64 = match timestamp {
        None => {
            return Err(WebhookError::MissingTimestamp);
        },
        Some(t) => t,
    };
    let secs: u64 = match now {
        None => {
            return Err(WebhookError::ClockUnavailable);
        },
        Some(s) => s,
    };
    let current: i64 = #[verifier::truncate] (secs as i64);
    let diff: i128 = current as i128 - ts as i128;
    let distance: i128 = if diff < 0 { -diff } else { diff };
    if distance > 300 {
        return Err(WebhookError::Expired);
    }
    if signatures.len() == 0 {
        return Err(WebhookError::MissingSignature);
    }
    let mut signed = i64_to_string(ts);
    push_char(&mut signed, '.');
    signed.append(payload);
    let key_bytes: &[u8] = key_str.as_bytes();
    let message_bytes: &[u8] = signed.as_str().as_bytes();
    let ghost sigs = spec_views(signatures@);
    let ghost key_seq = encode_utf8(spec_trim(secret@));
    let ghost message = encode_utf8(spec_signed_payload(ts as int, payload@));
    assert(key_str@ == spec_trim(secret@));
    assert(signed@ =~= spec_signed_payload(ts as int, payload@));
    let mut j: usize = 0;
    while j < signatures.len()
        invariant
            j <= signatures.len(),
            sigs == spec_views(signatures@),
            key_bytes@ == key_seq,
            message_bytes@ == message,
            forall|k: int| 0 <= k < j ==> !spec_signature_valid(key_seq, message, #[trigger] sigs[k]),
        decreases signatures.len() - j,
    {
        let sig_text = string_of(&signatures[j]);
        match hex_decode(sig_text.as_str()) {
            Some(tag) => {
                if hmac_sha256_verify(key_bytes, message_bytes, tag.as_slice()) {
                    assert(spec_signature_valid(key_seq, message, sigs[j as int]));
                    assert(spec_trim(secret@).len() != 0);
                    assert(spec_header_timestamp(pv) == Some(ts as int));
                    assert(sigs == spec_header_signatures(pv));
                    assert(spec_abs(#[verifier::truncate] (secs as i64) as int - ts as int) <= 300);
                    assert(exists|k: int| 0 <= k < sigs.len() && spec_signature_valid(key_seq, message, #[trigger] sigs[k]));
                    return Ok(());
                }
            },
            None => {},
        }
        j = j + 1;
    }
    Err(WebhookError::SignatureMismatch)
}

impl StripeService {
    /// Checks a webhook delivery (its raw body and its signature header) against the
    /// configured signing secret and the current time.
    pub fn verify_webhook_signature(&self, payload: &str, signature_header: &str) -> (r: Result<(), WebhookError>)
        ensures
            exists|now: Option<u64>|
                r == spec_webhook_verdict(self.config.webhook_endpoint_secret@, payload@, signature_header@, now),
    {
        let now = unix_seconds_now();
        check_webhook_signature(self.config.webhook_endpoint_secret.as_str(), payload, signature_header, now)
    }
}

} // verus!

verus! {

/// The lifecycle states of a provider payment intent.
#[derive(Clone, Copy, Debug, PartialEq, Eq, Structural)]
pub enum PaymentIntentStatus {
    RequiresPaymentMethod,
    RequiresConfirmation,
    RequiresAction,
    Processing,
    RequiresCapture,
    Succeeded,
    Canceled,
}

/// The payment-intent status that a provider status name denotes; unknown names mean
/// that a payment method is still required.
pub open spec fn spec_payment_intent_status(s: Seq<char>) -> PaymentIntentStatus {
    if s == "requires_confirmation"@ {
        PaymentIntentStatus::RequiresConfirmation
    } else if s == "requires_action"@ {
        PaymentIntentStatus::RequiresAction
    } else if s == "processing"@ {
        PaymentIntentStatus::Processing
    } else if s == "requires_capture"@ {
        PaymentIntentStatus::RequiresCapture
    } else if s == "succeeded"@ {
        PaymentIntentStatus::Succeeded
    } else if s == "canceled"@ {
        PaymentIntentStatus::Canceled
    } else {
        PaymentIntentStatus::RequiresPaymentMethod
    }
}

/// The subscription status that a provider subscription status name denotes.
pub open spec fn spec_provider_subscription_status(s: Seq<char>) -> SubscriptionStatus {
    if s == "active"@ || s == "trialing"@ {
        SubscriptionStatus::Active
    } else if s == "canceled"@ {
        SubscriptionStatus::Canceled
    } else if s == "past_due"@ || s == "unpaid"@ || s == "incomplete"@ || s == "incomplete_expired"@ {
        SubscriptionStatus::PastDue
    } else if s == "expired"@ {
        SubscriptionStatus::Expired
    } else {
        SubscriptionStatus::Active
    }
}

/// The kinds of stored payment method.
#[derive(Clone, Copy, Debug, PartialEq, Eq, Structural)]
pub enum PaymentMethodType {
    Card,
    BankAccount,
    Alipay,
    Wechat,
}

/// The payment-method kind that a stored kind name denotes; unknown names mean a card.
pub open spec fn spec_payment_method_type(s: Seq<char>) -> PaymentMethodType {
    if s == "bank_account"@ {
        PaymentMethodType::BankAccount
    } else if s == "alipay"@ {
        PaymentMethodType::Alipay
    } else if s == "wechat"@ || s == "wechat_pay"@ {
        PaymentMethodType::Wechat
    } else {
        PaymentMethodType::Card
    }
}

/// The kinds of connected payout account.
#[derive(Clone, Copy, Debug, PartialEq, Eq, Structural)]
pub enum ConnectAccountType {
    Standard,
    Express,
    Custom,
}

/// The account kind that a provider account-type name denotes; absent or unknown names
/// mean an express account.
pub open spec fn spec_connect_account_type(s: Option<Seq<char>>) -> ConnectAccountType {
    match s {
        Some(t) => if t == "standard"@ {
            ConnectAccountType::Standard
        } else if t == "custom"@ {
            ConnectAccountType::Custom
        } else {
            ConnectAccountType::Express
        },
        None => ConnectAccountType::Express,
    }
}

/// Why a payment request was refused before reaching the provider.
#[derive(Clone, Copy, Debug, PartialEq, Eq, Structural)]
pub enum PaymentRequestError {
    /// A payment intent needs an amount.
    MissingAmount,
    /// The amount is below 50 minor units.
    AmountTooSmall,
    /// The currency is not a three-letter code.
    InvalidCurrency,
}

impl PaymentRequestError {
    /// The category under which the refusal is reported: a bad request, whatever the
    /// reason.
    pub fn kind(&self) -> (k: ErrorKind)
        ensures
            k == ErrorKind::BadRequest,
    {
        ErrorKind::BadRequest
    }
}

/// The smallest amount, in minor units, that a payment intent may charge.
pub const MIN_PAYMENT_AMOUNT: i64 = 50;

/// The currency a payment request charges in: the given one (default `USD`) in ASCII
/// upper case.
pub open spec fn spec_request_currency(currency: Option<Seq<char>>) -> Seq<char> {
    match currency {
        Some(c) => spec_ascii_uppercase(c),
        None => "USD"@,
    }
}

/// The characters of an optional string slice.
pub open spec fn opt_view(s: Option<&str>) -> Option<Seq<char>> {
    match s {
        Some(t) => Some(t@),
        None => None,
    }
}

/// The verdict on the amount and currency of a payment-intent request.
pub open spec fn spec_payment_request(amount: Option<i64>, currency: Option<Seq<char>>) -> Result<(i64, Seq<char>), PaymentRequestError> {
    match amount {
        None => Err(PaymentRequestError::MissingAmount),
        Some(a) => {
            let cur = spec_request_currency(currency);
            if a < 50 {
                Err(PaymentRequestError::AmountTooSmall)
            } else if encode_utf8(cur).len() != 3 {
                Err(PaymentRequestError::InvalidCurrency)
            } else {
                Ok((a, cur))
            }
        },
    }
}

impl StripeService {
    /// The payment-intent status of a provider status name.
    pub fn map_payment_intent_status(status: &str) -> (r: PaymentIntentStatus)
        ensures
            r == spec_payment_intent_status(status@),
    {
        proof {
            reveal_strlit("requires_confirmation");
            reveal_strlit("requires_action");
            reveal_strlit("processing");
            reveal_strlit("requires_capture");
            reveal_strlit("succeeded");
            reveal_strlit("canceled");
            assert("requires_confirmation"@.len() == 21);
            assert("requires_action"@.len() == 15);
            assert("processing"@.len() == 10);
            assert("requires_capture"@.len() == 16);
            assert("succeeded"@.len() == 9);
            assert("canceled"@.len() == 8);
        }
        if str_eq(status, "requires_confirmation") {
            PaymentIntentStatus::RequiresConfirmation
        } else if str_eq(status, "requires_action") {
            PaymentIntentStatus::RequiresAction
        } else if str_eq(status, "processing") {
            PaymentIntentStatus::Processing
        } else if str_eq(status, "requires_capture") {
            PaymentIntentStatus::RequiresCapture
        } else if str_eq(status, "succeeded") {
            PaymentIntentStatus::Succeeded
        } else if str_eq(status, "canceled") {
            PaymentIntentStatus::Canceled
        } else {
            PaymentIntentStatus::RequiresPaymentMethod
        }
    }

    /// The subscription status of a provider subscription status name.
    pub fn map_subscription_status(status: &str) -> (r: SubscriptionStatus)
        ensures
            r == spec_provider_subscription_status(status@),
    {
        proof {
            reveal_strlit("active");
            reveal_strlit("trialing");
            reveal_strlit("canceled");
            reveal_strlit("past_due");
            reveal_strlit("unpaid");
            reveal_strlit("incomplete");
            reveal_strlit("incomplete_expired");
            reveal_strlit("expired");
            assert("active"@.len() == 6);
            assert("trialing"@.len() == 8);
            assert("canceled"@.len() == 8);
            assert("past_due"@.len() == 8);
            assert("unpaid"@.len() == 6);
            assert("incomplete"@.len() == 10);
            assert("incomplete_expired"@.len() == 18);
            assert("expired"@.len() == 7);
            assert("canceled"@[0] != "trialing"@[0]);
            assert("past_due"@[0] != "trialing"@[0]);
            assert("past_due"@[0] != "canceled"@[0]);
            assert("active"@[0] != "unpaid"@[0]);
        }
        if str_eq(status, "active") || str_eq(status, "trialing") {
            SubscriptionStatus::Active
        } else if str_eq(status, "canceled") {
            SubscriptionStatus::Canceled
        } else if str_eq(status, "past_due") || str_eq(status, "unpaid") || str_eq(status, "incomplete")
            || str_eq(status, "incomplete_expired") {
            SubscriptionStatus::PastDue
        } else if str_eq(status, "expired") {
            SubscriptionStatus::Expired
        } else {
            SubscriptionStatus::Active
        }
    }

    /// The payment-method kind of a stored kind name.
    pub fn parse_payment_method_type(value: &str) -> (r: PaymentMethodType)
        ensures
            r == spec_payment_method_type(value@),
    {
        proof {
            reveal_strlit("bank_account");
            reveal_strlit("alipay");
            reveal_strlit("wechat");
            reveal_strlit("wechat_pay");
            assert("bank_account"@.len() == 12);
            assert("alipay"@.len() == 6);
            assert("wechat"@.len() == 6);
            assert("wechat_pay"@.len() == 10);
            assert("alipay"@[0] != "wechat"@[0]);
        }
        if str_eq(value, "bank_account") {
            PaymentMethodType::BankAccount
        } else if str_eq(value, "alipay") {
            PaymentMethodType::Alipay
        } else if str_eq(value, "wechat") || str_eq(value, "wechat_pay") {
            PaymentMethodType::Wechat
        } else {
            PaymentMethodType::Card
        }
    }

    /// The account kind named by the `type` field of a provider account, if it has one.
    pub fn extract_account_type(account_type: Option<&str>) -> (r: ConnectAccountType)
        ensures
            r == spec_connect_account_type(
                match account_type {
                    Some(t) => Some(t@),
                    None => None,
                },
            ),
    {
        proof {
            reveal_strlit("standard");
            reveal_strlit("custom");
            assert("standard"@.len() == 8);
            assert("custom"@.len() == 6);
        }
        match account_type {
            Some(t) => {
                if str_eq(t, "standard") {
                    ConnectAccountType::Standard
                } else if str_eq(t, "custom") {
                    ConnectAccountType::Custom
                } else {
                    ConnectAccountType::Express
                }
            },
            None => ConnectAccountType::Express,
        }
    }

    /// Checks the amount and currency of a payment-intent request: an amount is required
    /// and must be at least 50; the currency (default `USD`) is upper-cased and must be
    /// three bytes long. Gives the amount and the currency to charge in.
    pub fn validate_payment_request(amount: Option<i64>, currency: Option<&str>) -> (r: Result<
        (i64, String),
        PaymentRequestError,
    >)
        ensures
            match r {
                Ok(v) => spec_payment_request(amount, opt_view(currency)) == Ok::<(i64, Seq<char>), PaymentRequestError>((v.0, v.1@)),
                Err(e) => spec_payment_request(amount, opt_view(currency)) == Err::<(i64, Seq<char>), PaymentRequestError>(e),
            },
    {
        let amount = match amount {
            None => {
                return Err(PaymentRequestError::MissingAmount);
            },
            Some(a) => a,
        };
        if amount < MIN_PAYMENT_AMOUNT {
            return Err(PaymentRequestError::AmountTooSmall);
        }
        let currency: String = match currency {
            Some(c) => ascii_uppercase(c),
            None => String::from_str("USD"),
        };
        if currency.as_str().as_bytes().len() != 3 {
            return Err(PaymentRequestError::InvalidCurrency);
        }
        Ok((amount, currency))
    }
}

/// What an intent request sets up: a saved card for later, or a payment now.
#[derive(Clone, Copy, Debug, PartialEq, Eq, Structural)]
pub enum IntentMode {
    Setup,
    Payment,
}

/// Why the provider's reply to an intent request was unusable.
#[derive(Clone, Copy, Debug, PartialEq, Eq, Structural)]
pub enum IntentReplyError {
    /// The reply carries no client secret.
    MissingClientSecret,
}

impl IntentReplyError {
    /// The category under which the failure is reported: an internal error.
    pub fn kind(&self) -> (k: ErrorKind)
        ensures
            k == ErrorKind::Internal,
    {
        ErrorKind::Internal
    }
}

/// The answer to an intent request: its mode, the client secret the provider returned,
/// and the setup intent's id (setup) or the payment intent's status (payment).
pub struct IntentResponse {
    pub mode: IntentMode,
    pub client_secret: String,
    pub setup_intent_id: Option<String>,
    pub payment_status: Option<PaymentIntentStatus>,
}

/// The characters of an optional string slice.
pub open spec fn spec_opt_chars(s: Option<&str>) -> Option<Seq<char>> {
    match s {
        Some(t) => Some(t@),
        None => None,
    }
}

/// The entries with the key `k` set to `v`: every entry with that key takes the value,
/// or the pair is appended when no entry has the key.
pub open spec fn spec_set_entry(s: Seq<(Seq<char>, Seq<char>)>, k: Seq<char>, v: Seq<char>) -> Seq<(Seq<char>, Seq<char>)> {
    if exists|i: int| 0 <= i < s.len() && (#[trigger] s[i]).0 == k {
        Seq::new(s.len(), |i: int| if s[i].0 == k { (k, v) } else { s[i] })
    } else {
        s.push((k, v))
    }
}

/// The text of each entry of a list of text pairs.
pub open spec fn spec_pairs_of(v: Seq<(String, String)>) -> Seq<(Seq<char>, Seq<char>)> {
    Seq::new(v.len(), |i: int| (v[i].0@, v[i].1@))
}

/// The characters of an optional string.
pub open spec fn spec_opt_text_of(s: Option<String>) -> Option<Seq<char>> {
    match s {
        Some(t) => Some(t@),
        None => None,
    }
}

/// A user's saved payment methods as (identifier, is default) pairs.
pub open spec fn spec_method_rows(s: Seq<SavedPaymentMethod>) -> Seq<(Seq<char>, bool)> {
    Seq::new(s.len(), |i: int| (s[i].stripe_payment_method_id@, s[i].is_default))
}

/// The saved methods after making the one with identifier `id` the default (none when
/// `id` is absent): every other method stops being the default.
pub open spec fn spec_with_default_method(s: Seq<(Seq<char>, bool)>, id: Option<Seq<char>>) -> Seq<(Seq<char>, bool)> {
    Seq::new(s.len(), |i: int| (s[i].0, id == Some(s[i].0)))
}

/// The saved methods after adding the method `id`: it is appended, and it becomes the only
/// default when the request asks for it or no method was the default yet.
pub open spec fn spec_after_adding_method(s: Seq<(Seq<char>, bool)>, id: Seq<char>, set_as_default: bool) -> Seq<
    (Seq<char>, bool),
> {
    if set_as_default || forall|i: int| 0 <= i < s.len() ==> !(#[trigger] s[i]).1 {
        spec_with_default_method(s.push((id, true)), Some(id))
    } else {
        s.push((id, false))
    }
}

/// Whether no two saved methods share an identifier.
pub open spec fn spec_distinct_methods(s: Seq<(Seq<char>, bool)>) -> bool {
    forall|i: int, j: int| 0 <= i < j < s.len() ==> s[i].0 != s[j].0
}

/// Whether at most one saved method is the default.
pub open spec fn spec_at_most_one_default(s: Seq<(Seq<char>, bool)>) -> bool {
    forall|i: int, j: int| 0 <= i < s.len() && 0 <= j < s.len() && s[i].1 && s[j].1 ==> i == j
}

/// A user has at most one default payment method: making a method the default, or adding
/// a method with distinct identifiers, leaves at most one default; and a user with saved
/// methods after an addition has a default.
pub proof fn law_one_default_method(s: Seq<(Seq<char>, bool)>, id: Seq<char>, set_as_default: bool, new_default: Option<
    Seq<char>,
>)
    requires
        spec_distinct_methods(s),
        spec_at_most_one_default(s),
    ensures
        spec_at_most_one_default(spec_with_default_method(s, new_default)),
        (forall|i: int| 0 <= i < s.len() ==> s[i].0 != id) ==> spec_at_most_one_default(
            spec_after_adding_method(s, id, set_as_default),
        ),
        exists|i: int|
            0 <= i < spec_after_adding_method(s, id, set_as_default).len() && (#[trigger] spec_after_adding_method(
                s,
                id,
                set_as_default,
            )[i]).1,
{
    let t = spec_after_adding_method(s, id, set_as_default);
    if set_as_default || forall|i: int| 0 <= i < s.len() ==> !(#[trigger] s[i]).1 {
        assert(t[s.len() as int].1);
    } else {
        let k = choose|i: int| 0 <= i < s.len() && (#[trigger] s[i]).1;
        assert(t[k].1);
        assert forall|i: int, j: int| 0 <= i < t.len() && 0 <= j < t.len() && t[i].1 && t[j].1 implies i == j by {
            if i < s.len() && j < s.len() {
                assert(t[i] == s[i] && t[j] == s[j]);
            }
        }
    }
    let u = s.push((id, true));
    if forall|i: int| 0 <= i < s.len() ==> s[i].0 != id {
        assert forall|i: int, j: int| 0 <= i < j < u.len() implies u[i].0 != u[j].0 by {
            if j < s.len() {
                assert(u[i] == s[i] && u[j] == s[j]);
            } else {
                assert(u[i] == s[i]);
            }
        }
    }
}

impl StripeService {
    /// The answer to a setup-intent request: the provider's client secret and setup
    /// intent id; a reply without a client secret is refused.
    pub fn setup_intent_response(client_secret: Option<&str>, setup_intent_id: Option<&str>) -> (r: Result<
        IntentResponse,
        IntentReplyError,
    >)
        ensures
            client_secret is None ==> r == Err::<IntentResponse, IntentReplyError>(IntentReplyError::MissingClientSecret),
            client_secret matches Some(c) ==> (r matches Ok(v) && v.mode == IntentMode::Setup && v.client_secret@ == c@
                && spec_opt_text_of(v.setup_intent_id) == spec_opt_chars(setup_intent_id) && v.payment_status is None),
    {
        match client_secret {
            None => Err(IntentReplyError::MissingClientSecret),
            Some(c) => Ok(
                IntentResponse {
                    mode: IntentMode::Setup,
                    client_secret: String::from_str(c),
                    setup_intent_id: match setup_intent_id {
                        Some(i) => Some(String::from_str(i)),
                        None => None,
                    },
                    payment_status: None,
                },
            ),
        }
    }

    /// The answer to a payment-intent request: the provider's client secret and the
    /// intent's status (`requires_payment_method` when the reply names none); a reply
    /// without a client secret is refused.
    pub fn payment_intent_response(status: Option<&str>, client_secret: Option<&str>) -> (r: Result<
        IntentResponse,
        IntentReplyError,
    >)
        ensures
            client_secret is None ==> r == Err::<IntentResponse, IntentReplyError>(IntentReplyError::MissingClientSecret),
            client_secret matches Some(c) ==> (r matches Ok(v) && v.mode == IntentMode::Payment && v.client_secret@ == c@
                && v.setup_intent_id is None && v.payment_status == Some(
                match status {
                    Some(t) => spec_payment_intent_status(t@),
                    None => PaymentIntentStatus::RequiresPaymentMethod,
                },
            )),
    {
        let st = match status {
            Some(t) => Self::map_payment_intent_status(t),
            None => PaymentIntentStatus::RequiresPaymentMethod,
        };
        match client_secret {
            None => Err(IntentReplyError::MissingClientSecret),
            Some(c) => Ok(
                IntentResponse {
                    mode: IntentMode::Payment,
                    client_secret: String::from_str(c),
                    setup_intent_id: None,
                    payment_status: Some(st),
                },
            ),
        }
    }

    /// The metadata stored with a payment intent: the request's, with `mode` set to
    /// `payment`.
    pub fn payment_intent_record_metadata(metadata: Vec<(String, String)>) -> (r: Vec<(String, String)>)
        ensures
            spec_pairs_of(r@) == spec_set_entry(spec_pairs_of(metadata@), "mode"@, "payment"@),
    {
        let ghost start = spec_pairs_of(metadata@);
        let mut m = metadata;
        let mut found = false;
        let mut i: usize = 0;
        while i < m.len()
            invariant
                i <= m@.len(),
                m@.len() == start.len(),
                found == exists|j: int| 0 <= j < i && (#[trigger] start[j]).0 == "mode"@,
                forall|j: int| 0 <= j < i ==> #[trigger] spec_pairs_of(m@)[j] == (if start[j].0 == "mode"@ {
                    ("mode"@, "payment"@)
                } else {
                    start[j]
                }),
                forall|j: int| i <= j < m@.len() ==> #[trigger] spec_pairs_of(m@)[j] == start[j],
            decreases m.len() - i,
        {
            let ghost before = m@;
            assert(spec_pairs_of(before)[i as int] == start[i as int]);
            if str_eq(m[i].0.as_str(), "mode") {
                m.set(i, (String::from_str("mode"), String::from_str("payment")));
                found = true;
                assert forall|j: int| 0 <= j < m@.len() && j != i implies #[trigger] spec_pairs_of(m@)[j] == spec_pairs_of(before)[j] by {
                    assert(m@[j] == before[j]);
                }
            }
            i = i + 1;
        }
        if found {
            assert(spec_pairs_of(m@) =~= spec_set_entry(start, "mode"@, "payment"@));
        } else {
            assert(spec_pairs_of(m@) =~= start);
            m.push((String::from_str("mode"), String::from_str("payment")));
            assert(spec_pairs_of(m@) =~= spec_set_entry(start, "mode"@, "payment"@));
        }
        m
    }

    /// Makes the saved method `payment_method_id` the user's default (none when absent):
    /// every other saved method stops being the default.
    pub fn set_default_payment_method(methods: &mut Vec<SavedPaymentMethod>, payment_method_id: Option<&str>)
        ensures
            spec_method_rows(final(methods)@) == spec_with_default_method(
                spec_method_rows(old(methods)@),
                match payment_method_id {
                    Some(p) => Some(p@),
                    None => None,
                },
            ),
    {
        let ghost target: Option<Seq<char>> = match payment_method_id {
            Some(p) => Some(p@),
            None => None,
        };
        let ghost start = spec_method_rows(methods@);
        let mut i: usize = 0;
        while i < methods.len()
            invariant
                i <= methods@.len(),
                target == match payment_method_id {
                    Some(p) => Some(p@),
                    None => None::<Seq<char>>,
                },
                methods@.len() == start.len(),
                forall|k: int| 0 <= k < methods@.len() ==> (#[trigger] methods@[k]).stripe_payment_method_id@ == start[k].0,
                forall|k: int| i <= k < methods@.len() ==> (#[trigger] methods@[k]).is_default == start[k].1,
                forall|k: int| 0 <= k < i ==> (#[trigger] methods@[k]).is_default == (target == Some(start[k].0)),
            decreases methods.len() - i,
        {
            let is_it = match payment_method_id {
                Some(p) => str_eq(methods[i].stripe_payment_method_id.as_str(), p),
                None => false,
            };
            let id = methods[i].stripe_payment_method_id.clone();
            let ghost before = methods@;
            methods.set(i, SavedPaymentMethod { stripe_payment_method_id: id, is_default: is_it });
            assert forall|k: int| 0 <= k < methods@.len() && k != i implies #[trigger] methods@[k] == before[k] by {}
            assert(methods@[i as int].is_default == is_it);
            assert(start[i as int].0 == before[i as int].stripe_payment_method_id@);
            assert(is_it == (target == Some(start[i as int].0)));
            i = i + 1;
        }
        assert(spec_method_rows(methods@) =~= spec_with_default_method(start, target));
    }

    /// Adds the saved method `payment_method_id`: it becomes the only default when the
    /// request asks for it or no saved method is the default yet (adding a payment method).
    pub fn add_payment_method(methods: &mut Vec<SavedPaymentMethod>, payment_method_id: &str, set_as_default: bool)
        ensures
            spec_method_rows(final(methods)@) == spec_after_adding_method(
                spec_method_rows(old(methods)@),
                payment_method_id@,
                set_as_default,
            ),
    {
        let ghost start = spec_method_rows(methods@);
        let make_default = Self::should_set_default(set_as_default, methods);
        assert(make_default == (set_as_default || forall|i: int| 0 <= i < start.len() ==> !(#[trigger] start[i]).1)) by {
            if !set_as_default {
                if make_default {
                    assert forall|i: int| 0 <= i < start.len() implies !(#[trigger] start[i]).1 by {
                        assert(start[i].1 == methods@[i].is_default);
                    }
                } else {
                    let j = choose|j: int| 0 <= j < methods@.len() && (#[trigger] methods@[j]).is_default;
                    assert(start[j].1);
                }
            }
        }
        methods.push(SavedPaymentMethod { stripe_payment_method_id: String::from_str(payment_method_id), is_default: make_default });
        assert(spec_method_rows(methods@) =~= start.push((payment_method_id@, make_default)));
        if make_default {
            Self::set_default_payment_method(methods, Some(payment_method_id));
            assert(spec_with_default_method(start.push((payment_method_id@, true)), Some(payment_method_id@))
                =~= spec_with_default_method(start.push((payment_method_id@, make_default)), Some(payment_method_id@)));
        }
    }

    /// Whether an add-payment-method request names a method: its identifier is not blank.
    pub fn payment_method_id_given(payment_method_id: &str) -> (r: bool)
        ensures
            r == (spec_trim(payment_method_id@).len() > 0),
    {
        let cs = chars_of(payment_method_id);
        let (lo, hi) = trim_bounds(&cs);
        lo < hi
    }

    /// Whether a newly added payment method becomes the default (adding a payment method):
    /// when the request asks for it, or when no saved method is the default yet.
    pub fn should_set_default(set_as_default: bool, existing: &Vec<SavedPaymentMethod>) -> (r: bool)
        ensures
            r == (set_as_default || forall|i: int| 0 <= i < existing@.len() ==> !(#[trigger] existing@[i]).is_default),
    {
        if set_as_default {
            return true;
        }
        let mut i: usize = 0;
        while i < existing.len()
            invariant
                i <= existing@.len(),
                !set_as_default,
                forall|j: int| 0 <= j < i ==> !(#[trigger] existing@[j]).is_default,
            decreases existing.len() - i,
        {
            if existing[i].is_default {
                assert(existing@[i as int].is_default);
                return false;
            }
            i = i + 1;
        }
        true
    }
}

} // verus!
