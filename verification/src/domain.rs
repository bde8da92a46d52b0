//! Publication domains: platform subdomains, custom domains and their DNS verification.

use crate::error::ErrorKind;
use crate::ids::{new_uuid_string, spec_hyphenated_uuid, spec_is_lower_hex};
use crate::text::{chars_of, push_char, str_eq, string_of};
use vstd::prelude::*;

verus! {

/// Configuration of the domain service.
pub struct DomainConfig {
    /// Base domain under which publications get subdomains (such as `platform.com`).
    pub base_domain: String,
    /// DNS verification timeout in seconds.
    pub dns_verification_timeout: u64,
    /// Certificate provider endpoint.
    pub ssl_provider_endpoint: Option<String>,
    /// Certificate provider API key.
    pub ssl_provider_api_key: Option<String>,
    /// Whether certificates are requested automatically.
    pub auto_provision_ssl: bool,
    /// Where the certificate provider reports back.
    pub ssl_webhook_url: Option<String>,
}

/// Publication domain rules.
pub struct DomainService {
    pub config: DomainConfig,
}

/// A platform subdomain or a domain the publisher owns.
#[derive(Clone, Copy, Debug, PartialEq, Eq, Structural)]
pub enum DomainType {
    Subdomain,
    Custom,
}

/// The verification state of a domain.
#[derive(Clone, Copy, Debug, PartialEq, Eq, Structural)]
pub enum DomainStatus {
    Pending,
    Verifying,
    Active,
    Failed,
}

/// The certificate state of a domain.
#[derive(Clone, Copy, Debug, PartialEq, Eq, Structural)]
pub enum SSLStatus {
    NoCertificate,
    Pending,
    Active,
    Failed,
}

/// The settings a new domain record starts with.
pub struct NewDomainSettings {
    pub status: DomainStatus,
    pub ssl_status: SSLStatus,
    pub is_primary: bool,
    pub verified: bool,
}

/// A DNS record that proves control of a custom domain.
pub struct VerificationRecordSpec {
    pub record_type: String,
    pub record_name: String,
    pub record_value: String,
}

/// Why a domain operation failed.
#[derive(Clone, Copy, Debug, PartialEq, Eq, Structural)]
pub enum DomainError {
    /// The custom domain of a record is not set.
    CustomDomainNotSet,
    /// The verification token of a record is not set.
    VerificationTokenNotSet,
    /// A verification record has a type other than TXT and CNAME.
    UnsupportedRecordType,
    /// A TXT record is not valid UTF-8.
    InvalidTxtData,
    /// The domain record has no name for its type.
    DomainNameNotFound,
}

impl DomainError {
    /// The category under which the failure is reported.
    pub fn kind(&self) -> (k: ErrorKind)
        ensures
            k == ErrorKind::Internal,
    {
        ErrorKind::Internal
    }
}

/// The DNS lookup that checks one verification record.
#[derive(Clone, Copy, Debug, PartialEq, Eq, Structural)]
pub enum DnsCheck {
    Txt,
    Cname,
}

/// The prefix of every verification token.
pub open spec fn spec_token_prefix() -> Seq<char> {
    "rainbow-verify-"@
}

/// `s` without its `-` characters.
pub open spec fn spec_without_hyphens(s: Seq<char>) -> Seq<char>
    decreases s.len(),
{
    if s.len() == 0 {
        s
    } else if s.last() == '-' {
        spec_without_hyphens(s.drop_last())
    } else {
        spec_without_hyphens(s.drop_last()).push(s.last())
    }
}

/// `s` without its trailing dots (`trim_end_matches('.')`).
pub open spec fn spec_trim_trailing_dots(s: Seq<char>) -> Seq<char>
    decreases s.len(),
{
    if s.len() > 0 && s.last() == '.' {
        spec_trim_trailing_dots(s.drop_last())
    } else {
        s
    }
}

/// One step of a TXT lookup: a TXT string that is not UTF-8 (`None`) fails the check,
/// one equal to the expected value passes it.
pub open spec fn spec_txt_verdict(records: Seq<Option<Seq<char>>>, expected: Seq<char>) -> Result<bool, DomainError>
    decreases records.len(),
{
    if records.len() == 0 {
        Ok(false)
    } else {
        match records[0] {
            None => Err(DomainError::InvalidTxtData),
            Some(t) => if t == expected {
                Ok(true)
            } else {
                spec_txt_verdict(records.drop_first(), expected)
            },
        }
    }
}

/// Whether some CNAME target equals the expected value, trailing dots ignored on both.
pub open spec fn spec_cname_matches(targets: Seq<Seq<char>>, expected: Seq<char>) -> bool {
    exists|i: int|
        0 <= i < targets.len() && spec_trim_trailing_dots(#[trigger] targets[i]) == spec_trim_trailing_dots(
            expected,
        )
}

/// Trailing dots do not change what a name is compared as.
proof fn lemma_trim_dot(s: Seq<char>)
    ensures
        spec_trim_trailing_dots(s.push('.')) == spec_trim_trailing_dots(s),
{
    assert(s.push('.').drop_last() =~= s);
}

/// The CNAME check asks for membership: a record set matches as soon as any of its
/// targets does, wherever it stands (so matching target lists joined together match when
/// either part does, and a target written with a trailing dot matches the bare expected
/// name); an empty set never matches, and a set matches only through one of its targets.
pub proof fn law_cname_any_target(targets: Seq<Seq<char>>, more: Seq<Seq<char>>, expected: Seq<char>, i: int)
    ensures
        0 <= i < targets.len() && spec_trim_trailing_dots(targets[i]) == spec_trim_trailing_dots(expected)
            ==> spec_cname_matches(targets, expected),
        spec_cname_matches(targets + more, expected) <==> spec_cname_matches(targets, expected) || spec_cname_matches(
            more,
            expected,
        ),
        spec_cname_matches(targets.push(expected.push('.')), expected),
        spec_cname_matches(seq![expected], expected),
        !spec_cname_matches(Seq::<Seq<char>>::empty(), expected),
        spec_cname_matches(targets, expected) ==> exists|k: int|
            0 <= k < targets.len() && spec_trim_trailing_dots(#[trigger] targets[k]) == spec_trim_trailing_dots(expected),
{
    let all = targets + more;
    if spec_cname_matches(all, expected) {
        let k = choose|k: int|
            0 <= k < all.len() && spec_trim_trailing_dots(#[trigger] all[k]) == spec_trim_trailing_dots(expected);
        if k < targets.len() {
            assert(all[k] == targets[k]);
        } else {
            assert(all[k] == more[k - targets.len()]);
        }
    }
    if spec_cname_matches(targets, expected) {
        let k = choose|k: int|
            0 <= k < targets.len() && spec_trim_trailing_dots(#[trigger] targets[k]) == spec_trim_trailing_dots(expected);
        assert(all[k] == targets[k]);
    }
    if spec_cname_matches(more, expected) {
        let k = choose|k: int|
            0 <= k < more.len() && spec_trim_trailing_dots(#[trigger] more[k]) == spec_trim_trailing_dots(expected);
        assert(all[targets.len() + k] == more[k]);
    }
    lemma_trim_dot(expected);
    let t = targets.push(expected.push('.'));
    assert(spec_trim_trailing_dots(t[targets.len() as int]) == spec_trim_trailing_dots(expected));
    assert(spec_trim_trailing_dots(seq![expected][0]) == spec_trim_trailing_dots(expected));
}

/// The outcome of checking one verification record: found, not found, or a lookup error.
pub enum RecordCheck {
    Verified,
    NotVerified,
    Failed(String),
}

/// The aggregated result of verifying all records of a custom domain.
pub struct VerificationSummary {
    pub all_verified: bool,
    pub status: DomainStatus,
    pub record_verified: Vec<bool>,
    pub errors: Option<Vec<String>>,
}

/// The error message for a record that was looked up and not found.
pub open spec fn spec_not_found_message(name: Seq<char>) -> Seq<char> {
    "DNS record "@ + name + " not found or incorrect"@
}

/// The error message for a record whose lookup failed.
pub open spec fn spec_failed_message(name: Seq<char>, reason: Seq<char>) -> Seq<char> {
    "Failed to verify "@ + name + ": "@ + reason
}

/// The error messages of a verification run, in record order.
pub open spec fn spec_verification_errors(names: Seq<String>, checks: Seq<RecordCheck>) -> Seq<Seq<char>>
    decreases checks.len(),
{
    if checks.len() == 0 {
        Seq::empty()
    } else {
        let rest = spec_verification_errors(names.drop_last(), checks.drop_last());
        match checks.last() {
            RecordCheck::Verified => rest,
            RecordCheck::NotVerified => rest.push(spec_not_found_message(names.last()@)),
            RecordCheck::Failed(r) => rest.push(spec_failed_message(names.last()@, r@)),
        }
    }
}

/// Appends the characters of `t` to `s`.
fn append_str(s: &mut String, t: &str)
    ensures
        final(s)@ == old(s)@ + t@,
{
    s.append(t);
}

impl DomainService {
    /// The full host name of a platform subdomain: the label, a dot, the base domain.
    pub fn full_subdomain(&self, subdomain: &str) -> (r: String)
        ensures
            r@ == subdomain@ + seq!['.'] + self.config.base_domain@,
    {
        let mut r = String::from_str(subdomain);
        push_char(&mut r, '.');
        append_str(&mut r, self.config.base_domain.as_str());
        r
    }

    /// The settings of a new subdomain: active and verified at once; a certificate is
    /// pending when certificates are requested automatically; primary only on request.
    pub fn subdomain_settings(&self, is_primary: Option<bool>) -> (s: NewDomainSettings)
        ensures
            s.status == DomainStatus::Active,
            s.verified,
            s.ssl_status == (if self.config.auto_provision_ssl {
                SSLStatus::Pending
            } else {
                SSLStatus::NoCertificate
            }),
            s.is_primary == (is_primary == Some(true)),
    {
        NewDomainSettings {
            status: DomainStatus::Active,
            ssl_status: if self.config.auto_provision_ssl {
                SSLStatus::Pending
            } else {
                SSLStatus::NoCertificate
            },
            is_primary: match is_primary {
                Some(p) => p,
                None => false,
            },
            verified: true,
        }
    }

    /// The settings of a new custom domain: pending, unverified, without a certificate;
    /// primary only on request.
    pub fn custom_domain_settings(is_primary: Option<bool>) -> (s: NewDomainSettings)
        ensures
            s.status == DomainStatus::Pending,
            !s.verified,
            s.ssl_status == SSLStatus::NoCertificate,
            s.is_primary == (is_primary == Some(true)),
    {
        NewDomainSettings {
            status: DomainStatus::Pending,
            ssl_status: SSLStatus::NoCertificate,
            is_primary: match is_primary {
                Some(p) => p,
                None => false,
            },
            verified: false,
        }
    }

    /// The verification token for a given UUID text: the fixed prefix, then the UUID
    /// without its hyphens.
    pub fn verification_token_from(uuid_text: &str) -> (t: String)
        ensures
            t@ == spec_token_prefix() + spec_without_hyphens(uuid_text@),
    {
        let cs = chars_of(uuid_text);
        let mut t = String::from_str("rainbow-verify-");
        let ghost start = t@;
        let mut i: usize = 0;
        assert(cs@.take(0) =~= Seq::<char>::empty());
        while i < cs.len()
            invariant
                i <= cs.len(),
                t@ == start + spec_without_hyphens(cs@.take(i as int)),
            decreases cs.len() - i,
        {
            assert(cs@.take(i + 1).drop_last() =~= cs@.take(i as int));
            if cs[i] != '-' {
                push_char(&mut t, cs[i]);
                assert(t@ =~= start + spec_without_hyphens(cs@.take(i + 1)));
            }
            i = i + 1;
        }
        assert(cs@.take(cs.len() as int) =~= cs@);
        t
    }

    /// A fresh verification token: the fixed prefix and the 32 hexadecimal digits of a
    /// random UUID.
    pub fn generate_verification_token() -> (t: String)
        ensures
            exists|u: Seq<char>| spec_hyphenated_uuid(u) && t@ == spec_token_prefix() + spec_without_hyphens(u),
    {
        let u = new_uuid_string();
        Self::verification_token_from(u.as_str())
    }

    /// The two DNS records that prove control of a custom domain: a TXT record
    /// `_rainbow-verify.<domain>` holding the token, and a CNAME record `<domain>` pointing
    /// at `domains.<base domain>`.
    pub fn verification_records(&self, custom_domain: Option<&str>, token: Option<&str>) -> (r: Result<
        (VerificationRecordSpec, VerificationRecordSpec),
        DomainError,
    >)
        ensures
            custom_domain is None ==> (r matches Err(e) && e == DomainError::CustomDomainNotSet),
            custom_domain is Some && token is None ==> (r matches Err(e) && e
                == DomainError::VerificationTokenNotSet),
            custom_domain is Some && token is Some ==> (r matches Ok(p) && p.0.record_type@ == "TXT"@
                && p.0.record_name@ == "_rainbow-verify."@ + custom_domain->0@ && p.0.record_value@ == token->0@
                && p.1.record_type@ == "CNAME"@ && p.1.record_name@ == custom_domain->0@ && p.1.record_value@
                == "domains."@ + self.config.base_domain@),
    {
        let domain = match custom_domain {
            None => {
                return Err(DomainError::CustomDomainNotSet);
            },
            Some(d) => d,
        };
        let token = match token {
            None => {
                return Err(DomainError::VerificationTokenNotSet);
            },
            Some(t) => t,
        };
        let mut txt_name = String::from_str("_rainbow-verify.");
        append_str(&mut txt_name, domain);
        let txt = VerificationRecordSpec {
            record_type: String::from_str("TXT"),
            record_name: txt_name,
            record_value: String::from_str(token),
        };
        let mut cname_value = String::from_str("domains.");
        append_str(&mut cname_value, self.config.base_domain.as_str());
        let cname = VerificationRecordSpec {
            record_type: String::from_str("CNAME"),
            record_name: String::from_str(domain),
            record_value: cname_value,
        };
        Ok((txt, cname))
    }

    /// The DNS lookup a verification record needs, by its type.
    pub fn dns_check_for(record_type: &str) -> (r: Result<DnsCheck, DomainError>)
        ensures
            record_type@ == "TXT"@ ==> r == Ok::<DnsCheck, DomainError>(DnsCheck::Txt),
            record_type@ == "CNAME"@ ==> r == Ok::<DnsCheck, DomainError>(DnsCheck::Cname),
            record_type@ != "TXT"@ && record_type@ != "CNAME"@ ==> r == Err::<DnsCheck, DomainError>(
                DomainError::UnsupportedRecordType,
            ),
    {
        proof {
            reveal_strlit("TXT");
            reveal_strlit("CNAME");
            assert("TXT"@.len() == 3);
            assert("CNAME"@.len() == 5);
        }
        if str_eq(record_type, "TXT") {
            Ok(DnsCheck::Txt)
        } else if str_eq(record_type, "CNAME") {
            Ok(DnsCheck::Cname)
        } else {
            Err(DomainError::UnsupportedRecordType)
        }
    }

    /// The verdict of a TXT lookup, reading its strings in order (`None` for a string that
    /// is not UTF-8).
    pub fn txt_verdict(records: &Vec<Option<String>>, expected: &str) -> (r: Result<bool, DomainError>)
        ensures
            r == spec_txt_verdict(
                Seq::new(
                    records@.len(),
                    |i: int|
                        match records@[i] {
                            Some(s) => Some(s@),
                            None => None,
                        },
                ),
                expected@,
            ),
    {
        let ghost view = Seq::new(
            records@.len(),
            |i: int|
                match records@[i] {
                    Some(s) => Some(s@),
                    None => None::<Seq<char>>,
                },
        );
        let mut i: usize = 0;
        assert(view.skip(0) =~= view);
        while i < records.len()
            invariant
                i <= records.len(),
                view == Seq::new(
                    records@.len(),
                    |i: int|
                        match records@[i] {
                            Some(s) => Some(s@),
                            None => None::<Seq<char>>,
                        },
                ),
                spec_txt_verdict(view, expected@) == spec_txt_verdict(view.skip(i as int), expected@),
            decreases records.len() - i,
        {
            assert(view.skip(i as int)[0] == view[i as int]);
            assert(view.skip(i as int).drop_first() =~= view.skip(i + 1));
            match &records[i] {
                None => {
                    return Err(DomainError::InvalidTxtData);
                },
                Some(s) => {
                    if str_eq(s.as_str(), expected) {
                        return Ok(true);
                    }
                },
            }
            i = i + 1;
        }
        Ok(false)
    }

    /// `s` without its trailing dots.
    pub fn trim_trailing_dots(s: &str) -> (r: Vec<char>)
        ensures
            r@ == spec_trim_trailing_dots(s@),
    {
        let mut cs = chars_of(s);
        while cs.len() > 0 && cs[cs.len() - 1] == '.'
            invariant
                spec_trim_trailing_dots(s@) == spec_trim_trailing_dots(cs@),
            decreases cs.len(),
        {
            let ghost before = cs@;
            cs.pop();
            assert(cs@ =~= before.drop_last());
        }
        cs
    }

    /// Whether some CNAME target names the expected host, trailing dots ignored.
    pub fn cname_matches(targets: &Vec<String>, expected: &str) -> (r: bool)
        ensures
            r == spec_cname_matches(Seq::new(targets@.len(), |i: int| targets@[i]@), expected@),
    {
        let ghost view = Seq::new(targets@.len(), |i: int| targets@[i]@);
        let want = Self::trim_trailing_dots(expected);
        let mut i: usize = 0;
        while i < targets.len()
            invariant
                i <= targets.len(),
                view == Seq::new(targets@.len(), |i: int| targets@[i]@),
                want@ == spec_trim_trailing_dots(expected@),
                forall|k: int|
                    0 <= k < i ==> spec_trim_trailing_dots(#[trigger] view[k]) != spec_trim_trailing_dots(
                        expected@,
                    ),
            decreases targets.len() - i,
        {
            let got = Self::trim_trailing_dots(targets[i].as_str());
            if crate::text::chars_equal(&got, &want) {
                assert(spec_trim_trailing_dots(view[i as int]) == spec_trim_trailing_dots(expected@));
                return true;
            }
            i = i + 1;
        }
        false
    }

    /// Aggregates the checks of a domain's verification records (`checks[i]` is the check
    /// of the record named `names[i]`): the domain becomes active when every record is
    /// found and is still verifying otherwise; each record not found or not looked up
    /// adds an error message; no message means no error list.
    pub fn summarize_verification(names: &Vec<String>, checks: &Vec<RecordCheck>) -> (s: VerificationSummary)
        requires
            names.len() == checks.len(),
        ensures
            s.all_verified == (forall|k: int| 0 <= k < checks@.len() ==> #[trigger] checks@[k] is Verified),
            s.status == (if s.all_verified {
                DomainStatus::Active
            } else {
                DomainStatus::Verifying
            }),
            s.record_verified@.len() == checks@.len(),
            forall|k: int| 0 <= k < checks@.len() ==> #[trigger] s.record_verified@[k] == checks@[k] is Verified,
            match s.errors {
                Some(e) => e@.len() > 0 && Seq::new(e@.len(), |i: int| e@[i]@) == spec_verification_errors(
                    names@,
                    checks@,
                ),
                None => spec_verification_errors(names@, checks@).len() == 0,
            },
    {
        let mut all_verified = true;
        let mut errors: Vec<String> = Vec::new();
        let mut flags: Vec<bool> = Vec::new();
        let mut i: usize = 0;
        assert(names@.take(0) =~= Seq::<String>::empty());
        assert(checks@.take(0) =~= Seq::<RecordCheck>::empty());
        while i < checks.len()
            invariant
                i <= checks.len(),
                names.len() == checks.len(),
                all_verified == (forall|k: int| 0 <= k < i ==> #[trigger] checks@[k] is Verified),
                flags@.len() == i,
                forall|k: int| 0 <= k < i ==> #[trigger] flags@[k] == checks@[k] is Verified,
                Seq::new(errors@.len(), |j: int| errors@[j]@) == spec_verification_errors(
                    names@.take(i as int),
                    checks@.take(i as int),
                ),
            decreases checks.len() - i,
        {
            assert(names@.take(i + 1).drop_last() =~= names@.take(i as int));
            assert(checks@.take(i + 1).drop_last() =~= checks@.take(i as int));
            let ghost before = Seq::new(errors@.len(), |j: int| errors@[j]@);
            match &checks[i] {
                RecordCheck::Verified => {
                    flags.push(true);
                },
                RecordCheck::NotVerified => {
                    all_verified = false;
                    flags.push(false);
                    let mut m = String::from_str("DNS record ");
                    append_str(&mut m, names[i].as_str());
                    append_str(&mut m, " not found or incorrect");
                    errors.push(m);
                    assert(Seq::new(errors@.len(), |j: int| errors@[j]@) =~= before.push(
                        spec_not_found_message(names@[i as int]@),
                    ));
                },
                RecordCheck::Failed(reason) => {
                    all_verified = false;
                    flags.push(false);
                    let mut m = String::from_str("Failed to verify ");
                    append_str(&mut m, names[i].as_str());
                    append_str(&mut m, ": ");
                    append_str(&mut m, reason.as_str());
                    errors.push(m);
                    assert(Seq::new(errors@.len(), |j: int| errors@[j]@) =~= before.push(
                        spec_failed_message(names@[i as int]@, reason@),
                    ));
                },
            }
            i = i + 1;
        }
        assert(names@.take(names.len() as int) =~= names@);
        assert(checks@.take(checks.len() as int) =~= checks@);
        let status = if all_verified {
            DomainStatus::Active
        } else {
            DomainStatus::Verifying
        };
        let errors = if errors.len() == 0 {
            None
        } else {
            Some(errors)
        };
        VerificationSummary { all_verified, status, record_verified: flags, errors }
    }

    /// The host name a certificate is requested for: the subdomain of a subdomain record,
    /// the custom domain of a custom record.
    pub fn certificate_host(domain_type: DomainType, subdomain: Option<&str>, custom_domain: Option<&str>) -> (r:
        Result<String, DomainError>)
        ensures
            match (domain_type, if domain_type == DomainType::Subdomain {
                subdomain
            } else {
                custom_domain
            }) {
                (_, Some(h)) => r matches Ok(s) && s@ == h@,
                (_, None) => r == Err::<String, DomainError>(DomainError::DomainNameNotFound),
            },
    {
        let name = match domain_type {
            DomainType::Subdomain => subdomain,
            DomainType::Custom => custom_domain,
        };
        match name {
            Some(h) => Ok(String::from_str(h)),
            None => Err(DomainError::DomainNameNotFound),
        }
    }

    /// Whether a certificate provider is configured: both its endpoint and its key.
    pub fn ssl_provider_configured(&self) -> (r: bool)
        ensures
            r == (self.config.ssl_provider_endpoint is Some && self.config.ssl_provider_api_key is Some),
    {
        self.config.ssl_provider_endpoint.is_some() && self.config.ssl_provider_api_key.is_some()
    }
}

/// A verification token is the prefix followed by exactly 32 lowercase hexadecimal
/// digits, whatever UUID it came from.
pub proof fn law_token_shape(u: Seq<char>)
    requires
        spec_hyphenated_uuid(u),
    ensures
        (spec_token_prefix() + spec_without_hyphens(u)).len() == spec_token_prefix().len() + 32,
        forall|i: int|
            0 <= i < spec_without_hyphens(u).len() ==> spec_is_lower_hex(#[trigger] spec_without_hyphens(u)[i]),
{
    lemma_without_hyphens(u, 36);
    assert(u.take(36) =~= u);
}

/// Removing hyphens from the first `n` characters of a hyphenated UUID leaves
/// `n` minus the number of hyphens among them, all hexadecimal.
proof fn lemma_without_hyphens(u: Seq<char>, n: int)
    requires
        spec_hyphenated_uuid(u),
        0 <= n <= 36,
    ensures
        spec_without_hyphens(u.take(n)).len() == n - (if n > 23 {
            4int
        } else if n > 18 {
            3int
        } else if n > 13 {
            2int
        } else if n > 8 {
            1int
        } else {
            0int
        }),
        forall|i: int|
            0 <= i < spec_without_hyphens(u.take(n)).len() ==> spec_is_lower_hex(
                #[trigger] spec_without_hyphens(u.take(n))[i],
            ),
    decreases n,
{
    if n > 0 {
        lemma_without_hyphens(u, n - 1);
        assert(u.take(n).drop_last() =~= u.take(n - 1));
        assert(u.take(n).last() == u[n - 1]);
    } else {
        assert(u.take(0) =~= Seq::<char>::empty());
    }
}

} // verus!
