use rainbow_blog::database::Database;
use rainbow_blog::domain::{
    DnsCheck, DomainConfig, DomainError, DomainService, DomainStatus, DomainType, RecordCheck, SSLStatus,
};

fn service(auto_ssl: bool) -> DomainService {
    DomainService {
        config: DomainConfig {
            base_domain: "platform.com".to_string(),
            dns_verification_timeout: 300,
            ssl_provider_endpoint: None,
            ssl_provider_api_key: None,
            auto_provision_ssl: auto_ssl,
            ssl_webhook_url: None,
        },
    }
}

#[test]
fn subdomain_host_name() {
    assert_eq!(service(true).full_subdomain("tech"), "tech.platform.com");
}

#[test]
fn new_subdomain_is_active_and_verified() {
    let s = service(true).subdomain_settings(None);
    assert_eq!(s.status, DomainStatus::Active);
    assert!(s.verified);
    assert_eq!(s.ssl_status, SSLStatus::Pending);
    assert!(!s.is_primary);
    let s = service(false).subdomain_settings(Some(true));
    assert_eq!(s.ssl_status, SSLStatus::NoCertificate);
    assert!(s.is_primary);
}

#[test]
fn new_custom_domain_is_pending() {
    let s = DomainService::custom_domain_settings(Some(false));
    assert_eq!(s.status, DomainStatus::Pending);
    assert!(!s.verified);
    assert_eq!(s.ssl_status, SSLStatus::NoCertificate);
    assert!(!s.is_primary);
}

#[test]
fn token_drops_hyphens() {
    assert_eq!(
        DomainService::verification_token_from("123e4567-e89b-12d3-a456-426614174000"),
        "rainbow-verify-123e4567e89b12d3a456426614174000"
    );
}

#[test]
fn generated_token_has_prefix_and_32_hex_digits() {
    let t = DomainService::generate_verification_token();
    assert!(t.starts_with("rainbow-verify-"));
    let rest = &t["rainbow-verify-".len()..];
    assert_eq!(rest.len(), 32);
    assert!(rest.chars().all(|c| c.is_ascii_hexdigit() && !c.is_ascii_uppercase()));
    assert_ne!(t, DomainService::generate_verification_token());
}

#[test]
fn verification_records_for_custom_domain() {
    let svc = service(true);
    let (txt, cname) = svc.verification_records(Some("blog.example.com"), Some("tok")).unwrap();
    assert_eq!(txt.record_type, "TXT");
    assert_eq!(txt.record_name, "_rainbow-verify.blog.example.com");
    assert_eq!(txt.record_value, "tok");
    assert_eq!(cname.record_type, "CNAME");
    assert_eq!(cname.record_name, "blog.example.com");
    assert_eq!(cname.record_value, "domains.platform.com");
    assert_eq!(svc.verification_records(None, Some("tok")).err(), Some(DomainError::CustomDomainNotSet));
    assert_eq!(
        svc.verification_records(Some("blog.example.com"), None).err(),
        Some(DomainError::VerificationTokenNotSet)
    );
}

#[test]
fn dns_checks_by_record_type() {
    assert_eq!(DomainService::dns_check_for("TXT"), Ok(DnsCheck::Txt));
    assert_eq!(DomainService::dns_check_for("CNAME"), Ok(DnsCheck::Cname));
    assert_eq!(DomainService::dns_check_for("A"), Err(DomainError::UnsupportedRecordType));
    assert_eq!(DomainService::dns_check_for("txt"), Err(DomainError::UnsupportedRecordType));
}

#[test]
fn txt_verdicts() {
    let recs = vec![Some("other".to_string()), Some("tok".to_string())];
    assert_eq!(DomainService::txt_verdict(&recs, "tok"), Ok(true));
    assert_eq!(DomainService::txt_verdict(&recs, "missing"), Ok(false));
    let bad = vec![Some("other".to_string()), None, Some("tok".to_string())];
    assert_eq!(DomainService::txt_verdict(&bad, "tok"), Err(DomainError::InvalidTxtData));
    let early = vec![Some("tok".to_string()), None];
    assert_eq!(DomainService::txt_verdict(&early, "tok"), Ok(true));
    assert_eq!(DomainService::txt_verdict(&vec![], "tok"), Ok(false));
}

#[test]
fn cname_match_ignores_trailing_dots() {
    assert_eq!(DomainService::trim_trailing_dots("a.com.."), vec!['a', '.', 'c', 'o', 'm']);
    let targets = vec!["x.net.".to_string(), "domains.platform.com.".to_string()];
    assert!(DomainService::cname_matches(&targets, "domains.platform.com"));
    assert!(!DomainService::cname_matches(&targets, "domains.other.com"));
    assert!(!DomainService::cname_matches(&vec![], "domains.platform.com"));
}

#[test]
fn verification_summary() {
    let names = vec!["_rainbow-verify.b.com".to_string(), "b.com".to_string()];
    let ok = vec![RecordCheck::Verified, RecordCheck::Verified];
    let s = DomainService::summarize_verification(&names, &ok);
    assert!(s.all_verified);
    assert_eq!(s.status, DomainStatus::Active);
    assert_eq!(s.record_verified, vec![true, true]);
    assert!(s.errors.is_none());
    let mixed = vec![RecordCheck::NotVerified, RecordCheck::Failed("timeout".to_string())];
    let s = DomainService::summarize_verification(&names, &mixed);
    assert!(!s.all_verified);
    assert_eq!(s.status, DomainStatus::Verifying);
    assert_eq!(s.record_verified, vec![false, false]);
    assert_eq!(
        s.errors,
        Some(vec![
            "DNS record _rainbow-verify.b.com not found or incorrect".to_string(),
            "Failed to verify b.com: timeout".to_string(),
        ])
    );
}

#[test]
fn certificate_hosts() {
    assert_eq!(
        DomainService::certificate_host(DomainType::Subdomain, Some("tech"), Some("x.com")),
        Ok("tech".to_string())
    );
    assert_eq!(
        DomainService::certificate_host(DomainType::Custom, Some("tech"), Some("x.com")),
        Ok("x.com".to_string())
    );
    assert_eq!(
        DomainService::certificate_host(DomainType::Custom, Some("tech"), None),
        Err(DomainError::DomainNameNotFound)
    );
}

#[test]
fn ssl_provider_needs_endpoint_and_key() {
    let mut svc = service(true);
    assert!(!svc.ssl_provider_configured());
    svc.config.ssl_provider_endpoint = Some("https://ssl".to_string());
    assert!(!svc.ssl_provider_configured());
    svc.config.ssl_provider_api_key = Some("k".to_string());
    assert!(svc.ssl_provider_configured());
}

#[test]
fn quotes_are_doubled() {
    assert_eq!(Database::escape_quotes("it's"), "it''s");
    assert_eq!(Database::escape_quotes("''"), "''''");
    assert_eq!(Database::escape_quotes("plain"), "plain");
    let escaped = Database::escape_quotes("a'b'c");
    assert_eq!(escaped.replace("''", "'"), "a'b'c");
}

#[test]
fn record_keys_drop_table_prefix() {
    assert_eq!(Database::record_key("article", "article:abc"), "abc");
    assert_eq!(Database::record_key("article", "abc"), "abc");
    assert_eq!(Database::record_key("article", "user:abc"), "user:abc");
    assert_eq!(Database::record_key("article", "article:"), "");
}
