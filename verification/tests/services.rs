use std::time::Duration;
use tachyon_server::sso::saml::SamlConfig;
use tachyon_server::sso::saml_runtime::{
    check_saml_assertion, decode_saml_payload, generate_sp_metadata_xml, parse_saml_response,
    replay_check, saml_acs_step, AcsAction, saml_acs_response, saml_replay_key, saml_token_claims, SAML_TOKEN_LIFETIME_SECS,
};
use tachyon_server::sync::{
    derive_frontmatter, derive_slug_from_path, derive_title_from_path, is_markdown_file,
    SyncConfig,
};
use tachyon_server::totp::{
    generate_backup_codes, generate_otpauth_uri, generate_secret, generate_totp,
    generate_totp_at, totp_from_mac, verify_totp, verify_totp_at, TotpError,
};
use tachyon_server::validation::search::UtcTimestamp;
use tachyon_server::webhook_delivery::{
    compute_signature, signature_header, DeliveryStep, RetrySchedule, INITIAL_BACKOFF_SECS,
    MAX_BACKOFF_SECS, MAX_RETRIES,
};

#[test]
fn test_sync_config_default() {
    let config = SyncConfig::default();
    assert!(!config.default_author_id.is_empty());
    assert_eq!(config.default_visibility, "private");
    assert!(config.render_html);
    assert!(config.update_search_index);
}

#[test]
fn test_is_markdown_file() {
    assert!(is_markdown_file("test.md"));
    assert!(is_markdown_file("test.markdown"));
    assert!(!is_markdown_file("test.txt"));
    assert!(!is_markdown_file("Makefile"));
}

#[test]
fn markdown_edge_cases() {
    assert!(!is_markdown_file(".md"));
    assert!(is_markdown_file("notes/a.b.md"));
    assert!(!is_markdown_file("docs/.."));
}

#[test]
fn test_derive_slug_from_path_simple() {
    assert_eq!(derive_slug_from_path("docs/API Reference.md"), "docs-api-reference");
}

#[test]
fn test_derive_slug_from_path_nested() {
    assert_eq!(derive_slug_from_path("docs/guides/setup.md"), "docs-guides-setup");
}

#[test]
fn test_derive_slug_from_path_root_file() {
    assert_eq!(derive_slug_from_path("README.md"), "readme");
}

#[test]
fn test_derive_slug_from_path_underscores() {
    assert_eq!(derive_slug_from_path("notes/my_notes.md"), "notes-my-notes");
}

#[test]
fn test_derive_slug_from_path_multiple_hyphens() {
    assert_eq!(derive_slug_from_path("some--weird---name.md"), "some-weird-name");
}

#[test]
fn test_derive_slug_from_path_hidden_dirs_excluded() {
    assert_eq!(derive_slug_from_path(".git/refs/heads/main.md"), "refs-heads-main");
}

#[test]
fn slug_is_cut_at_two_hundred_bytes() {
    let long = format!("{}.md", "a".repeat(250));
    assert_eq!(derive_slug_from_path(&long).len(), 200);
    assert_eq!(derive_slug_from_path("-- Hello, World! --.md"), "hello-world");
}

#[test]
fn test_derive_title_from_path() {
    assert_eq!(derive_title_from_path("api-reference.md"), "Api Reference");
}

#[test]
fn test_derive_title_from_path_underscores() {
    assert_eq!(derive_title_from_path("my_notes.md"), "My Notes");
}

#[test]
fn test_derive_title_from_path_no_extension() {
    assert_eq!(derive_title_from_path("Makefile"), "Makefile");
}

#[test]
fn title_defaults() {
    assert_eq!(derive_title_from_path(""), "Untitled");
    assert_eq!(derive_title_from_path("a/--x__y.md"), "X Y");
}

#[test]
fn test_derive_frontmatter_with_frontmatter() {
    let content = "---\ntitle: Hello\ntags: [a, b]\n---\n\nBody content";
    let (fm, body) = derive_frontmatter(content);
    assert_eq!(fm, Some("title: Hello\ntags: [a, b]".to_string()));
    assert_eq!(body, "Body content");
}

#[test]
fn test_derive_frontmatter_without_frontmatter() {
    let content = "# Hello\n\nBody content";
    let (fm, body) = derive_frontmatter(content);
    assert!(fm.is_none());
    assert_eq!(body, content);
}

#[test]
fn test_derive_frontmatter_empty() {
    let (fm, body) = derive_frontmatter("");
    assert!(fm.is_none());
    assert_eq!(body, "");
}

#[test]
fn test_derive_frontmatter_incomplete() {
    let content = "---\ntitle: Hello\nBody without closing";
    let (fm, body) = derive_frontmatter(content);
    assert!(fm.is_none());
    assert_eq!(body, content);
}

#[test]
fn test_backoff_constants() {
    assert_eq!(MAX_RETRIES, 3);
    assert_eq!(Duration::from_secs(INITIAL_BACKOFF_SECS), Duration::from_secs(1));
    assert_eq!(Duration::from_secs(MAX_BACKOFF_SECS), Duration::from_secs(60));
}

#[test]
fn retry_schedule_waits_then_gives_up() {
    let mut s = RetrySchedule::new();
    assert_eq!(s.record(false), DeliveryStep::RetryAfter(1));
    assert_eq!(s.record(false), DeliveryStep::RetryAfter(2));
    assert_eq!(s.record(false), DeliveryStep::Failed);
    assert!(!s.can_attempt());
    let mut t = RetrySchedule::new();
    assert_eq!(t.record(true), DeliveryStep::Delivered);
    assert!(t.can_attempt());
}

#[test]
fn test_compute_signature() {
    let sig = compute_signature("secret", b"payload");
    assert!(!sig.is_empty());
    assert_eq!(sig.len(), 64);
}

#[test]
fn test_compute_signature_deterministic() {
    let sig1 = compute_signature("my-secret", b"hello world");
    let sig2 = compute_signature("my-secret", b"hello world");
    assert_eq!(sig1, sig2);
}

#[test]
fn test_compute_signature_different_secrets() {
    let sig1 = compute_signature("secret-a", b"data");
    let sig2 = compute_signature("secret-b", b"data");
    assert_ne!(sig1, sig2);
}

#[test]
fn signature_known_value() {
    // RFC 4231 test case 2.
    assert_eq!(
        compute_signature("Jefe", b"what do ya want for nothing?"),
        "5bdcc146bf60754e6a042426089575c75a003f089d2739839dec58b964ec3843"
    );
    assert!(signature_header("k", b"x").starts_with("sha256="));
}

#[test]
fn test_generate_secret() {
    let secret = generate_secret();
    assert!(secret.len() >= 20);
    assert!(secret.chars().all(|c| c.is_ascii_uppercase() || c.is_ascii_digit()));
}

#[test]
fn secret_is_thirty_two_base32_digits() {
    let secret = generate_secret();
    assert_eq!(secret.len(), 32);
    assert!(secret.chars().all(|c| c.is_ascii_uppercase() || ('2'..='7').contains(&c)));
    assert_eq!(base32::decode(base32::Alphabet::Rfc4648 { padding: false }, &secret).unwrap().len(), 20);
}

#[test]
fn test_generate_and_verify_totp() {
    let secret = generate_secret();
    let code = generate_totp(&secret).unwrap();
    assert!(verify_totp(&secret, code).unwrap());
}

#[test]
fn test_verify_wrong_code() {
    let secret = generate_secret();
    assert!(!verify_totp(&secret, 0).unwrap() || generate_totp(&secret).unwrap() == 0);
}

#[test]
fn test_generate_backup_codes() {
    let codes = generate_backup_codes(10);
    assert_eq!(codes.len(), 10);
    assert!(codes.iter().all(|c| c.len() == 8 && c.parse::<u32>().is_ok()));
}

#[test]
fn test_otpauth_uri() {
    let uri = generate_otpauth_uri("SECRET", "user@example.com", "Tachyon");
    assert!(uri.contains("otpauth://totp"));
    assert!(uri.contains("Tachyon"));
    assert!(uri.contains("SECRET"));
}

#[test]
fn otpauth_uri_is_percent_encoded() {
    assert_eq!(
        generate_otpauth_uri("S", "a b@c", "My Co"),
        "otpauth://totp/My%20Co:a%20b%40c?secret=S&issuer=My%20Co&algorithm=SHA1&digits=6&period=30"
    );
}

#[test]
fn totp_rfc6238_vectors() {
    // RFC 6238 SHA-1 key "12345678901234567890" in base32.
    let secret = "GEZDGNBVGY3TQOJQGEZDGNBVGY3TQOJQ";
    assert_eq!(generate_totp_at(secret, 59).unwrap(), 287082);
    assert_eq!(generate_totp_at(secret, 1111111109).unwrap(), 81804);
    assert_eq!(generate_totp_at(secret, 1234567890).unwrap(), 5924);
    assert!(verify_totp_at(secret, 287082, 89).unwrap());
    assert!(!verify_totp_at(secret, 287082, 150).unwrap());
    assert_eq!(verify_totp_at(secret, 1, 10), Err(TotpError::InvalidTime));
    assert_eq!(generate_totp_at("not base32!", 0), Err(TotpError::InvalidSecret));
    let mut mac = [0u8; 20];
    mac[19] = 0x02;
    mac[2] = 0xff;
    assert_eq!(totp_from_mac(&mac), (0x7f00_0000u32) % 1_000_000);
}

fn config() -> SamlConfig {
    SamlConfig {
        entity_id: "https://sp.example.com".to_string(),
        acs_url: "https://sp.example.com/acs".to_string(),
        metadata_url: "https://sp.example.com/metadata".to_string(),
        certificate: None,
        private_key: None,
    }
}

#[test]
fn sp_metadata_names_entity_and_acs() {
    let xml = generate_sp_metadata_xml(&config());
    assert!(xml.starts_with("<?xml version=\"1.0\" encoding=\"UTF-8\"?>"));
    assert!(xml.contains("entityID=\"https://sp.example.com\""));
    assert!(xml.contains("Location=\"https://sp.example.com/acs\" />"));
    assert!(xml.contains("Location=\"https://sp.example.com/acs/logout\" />"));
    assert!(xml.ends_with("</md:EntityDescriptor>"));
}

const ASSERTION: &str = r#"<samlp:Response xmlns:samlp="urn:oasis:names:tc:SAML:2.0:protocol" xmlns:saml="urn:oasis:names:tc:SAML:2.0:assertion">
<saml:Assertion ID="a-1">
<saml:Issuer>https://idp.example.com</saml:Issuer>
<ds:Signature xmlns:ds="http://www.w3.org/2000/09/xmldsig#"><ds:X509Certificate> CERT </ds:X509Certificate></ds:Signature>
<saml:Subject><saml:NameID>alice@example.com</saml:NameID></saml:Subject>
<saml:Conditions NotBefore="2020-01-01T00:00:00Z" NotOnOrAfter="2030-01-01T00:00:00Z">
<saml:AudienceRestriction><saml:Audience>https://sp.example.com</saml:Audience></saml:AudienceRestriction>
</saml:Conditions>
<saml:AttributeStatement>
<saml:Attribute Name="email" FriendlyName="mail"><saml:AttributeValue>alice@example.com</saml:AttributeValue></saml:Attribute>
</saml:AttributeStatement>
</saml:Assertion>
</samlp:Response>"#;

#[test]
fn saml_assertion_is_read_and_checked() {
    let parsed = parse_saml_response(ASSERTION).unwrap();
    assert_eq!(parsed.name_id, "alice@example.com");
    assert_eq!(parsed.issuer, "https://idp.example.com");
    assert_eq!(parsed.assertion_id.as_deref(), Some("a-1"));
    assert!(parsed.signature_present);
    assert_eq!(parsed.signature_cert_reference.as_deref(), Some("CERT"));
    assert_eq!(parsed.attributes.len(), 1);
    assert_eq!(parsed.attributes[0].name, "email");
    assert_eq!(parsed.attributes[0].friendly_name.as_deref(), Some("mail"));
    assert_eq!(parsed.attributes[0].values, vec!["alice@example.com".to_string()]);
    let no_issuer = ASSERTION.replace("<saml:Issuer>https://idp.example.com</saml:Issuer>", "");
    let parsed2 = parse_saml_response(&no_issuer).unwrap();
    assert_eq!(parsed2.issuer, "unknown");
    assert_eq!(parsed2.attributes[0].values, vec!["alice@example.com".to_string()]);
    let c = parsed.conditions.as_ref().unwrap();
    assert_eq!(c.not_before, Some(UtcTimestamp { seconds: 1577836800, nanos: 0 }));
    let now = UtcTimestamp { seconds: 1700000000, nanos: 0 };
    assert!(check_saml_assertion(&parsed, now, "https://sp.example.com").is_ok());
    assert_eq!(
        check_saml_assertion(&parsed, now, "https://other.example.com").unwrap_err(),
        "SAML assertion audience does not match this service provider"
    );
    let late = UtcTimestamp { seconds: 1893456000, nanos: 0 };
    assert_eq!(
        check_saml_assertion(&parsed, late, "https://sp.example.com").unwrap_err(),
        "SAML assertion has expired (NotOnOrAfter condition exceeded)"
    );
}

#[test]
fn saml_consumer_checks_then_guards_against_replay() {
    let parsed = parse_saml_response(ASSERTION).unwrap();
    let now = UtcTimestamp { seconds: 1700000000, nanos: 0 };
    let sp = "https://sp.example.com";
    match saml_acs_step(&parsed, now, sp, None) {
        AcsAction::LookUpReplay(k) => assert_eq!(k, "saml:assertion:a-1"),
        other => panic!("unexpected {:?}", other),
    }
    match saml_acs_step(&parsed, now, sp, Some(false)) {
        AcsAction::RecordAndAccept(k) => assert_eq!(k, "saml:assertion:a-1"),
        other => panic!("unexpected {:?}", other),
    }
    match saml_acs_step(&parsed, now, sp, Some(true)) {
        AcsAction::Refuse(m) => {
            assert_eq!(m, "SAML assertion has already been used (possible replay attack)")
        }
        other => panic!("unexpected {:?}", other),
    }
    let early = UtcTimestamp { seconds: 1500000000, nanos: 0 };
    match saml_acs_step(&parsed, early, sp, None) {
        AcsAction::Refuse(m) => {
            assert_eq!(m, "SAML assertion is not yet valid (NotBefore condition not met)")
        }
        other => panic!("unexpected {:?}", other),
    }
    let unsigned = ASSERTION.replace(
        "<ds:Signature xmlns:ds=\"http://www.w3.org/2000/09/xmldsig#\"><ds:X509Certificate> CERT </ds:X509Certificate></ds:Signature>",
        "",
    );
    let parsed_unsigned = parse_saml_response(&unsigned).unwrap();
    match saml_acs_step(&parsed_unsigned, now, sp, Some(false)) {
        AcsAction::Refuse(m) => {
            assert_eq!(m, "SAML assertion must be signed. The IdP did not include a signature.")
        }
        other => panic!("unexpected {:?}", other),
    }
    let no_id = ASSERTION.replace("<saml:Assertion ID=\"a-1\">", "<saml:Assertion>");
    let parsed_no_id = parse_saml_response(&no_id).unwrap();
    assert!(matches!(saml_acs_step(&parsed_no_id, now, sp, None), AcsAction::Accept));
}

#[test]
fn saml_attribute_values_after_the_issuer_are_kept() {
    let xml = "<Assertion><Issuer>idp</Issuer><NameID>bob</NameID><Attribute Name='email'><AttributeValue>bob@x.com</AttributeValue></Attribute></Assertion>";
    let parsed = parse_saml_response(xml).unwrap();
    assert_eq!(parsed.issuer, "idp");
    assert_eq!(parsed.name_id, "bob");
    assert_eq!(parsed.attributes.len(), 1);
    assert_eq!(parsed.attributes[0].name, "email");
    assert_eq!(parsed.attributes[0].friendly_name, None);
    assert_eq!(parsed.attributes[0].values, vec!["bob@x.com".to_string()]);
}

#[test]
fn saml_errors() {
    assert_eq!(
        parse_saml_response("<Response></Response>").unwrap_err(),
        "SAML response contains no NameID in the assertion"
    );
    assert!(parse_saml_response("<a><b></a>").unwrap_err().starts_with("Failed to parse SAML response XML: "));
    assert!(decode_saml_payload("%%%").unwrap_err().starts_with("Failed to base64-decode SAMLResponse: "));
    assert_eq!(decode_saml_payload(" PGE+PC9hPg== ").unwrap(), "<a></a>");
}

use tachyon_server::truelayer::{
    api_failure, bearer_header, mandate_reference, TrueLayerClient, TrueLayerConfig, TrueLayerError,
};

fn truelayer_config(env: &str) -> TrueLayerConfig {
    TrueLayerConfig {
        enabled: true,
        environment: env.to_string(),
        client_id: "cid".to_string(),
        client_secret: "sec".to_string(),
        merchant_account_id: "m1".to_string(),
        webhook_secret: "wh".to_string(),
    }
}

#[test]
fn truelayer_environment_and_enabling() {
    let c = TrueLayerClient::new(&truelayer_config("production"));
    assert!(c.is_enabled());
    assert_eq!(c.endpoint("/auth/token"), "https://api.truelayer.com/auth/token");
    let c = TrueLayerClient::new(&truelayer_config("sandbox"));
    assert_eq!(c.resource("/mandates", "md1"), "https://api.truelayer-sandbox.com/mandates/md1");
    assert_eq!(c.webhook_secret(), "wh");
    assert_eq!(c.merchant_account_id(), "m1");
    let mut cfg = truelayer_config("production");
    cfg.client_secret = String::new();
    let c = TrueLayerClient::new(&cfg);
    assert!(!c.is_enabled());
    assert!(matches!(c.ensure_enabled(), Err(TrueLayerError::Disabled)));
}

#[test]
fn truelayer_token_cache_expires_a_minute_early() {
    let mut c = TrueLayerClient::new(&truelayer_config("sandbox"));
    assert!(c.cached_token(0).is_none());
    c.store_token("tok".to_string(), 3600, 1_000);
    assert_eq!(c.cached_token(1_000), Some("tok".to_string()));
    assert_eq!(c.cached_token(3_540_999), Some("tok".to_string()));
    assert!(c.cached_token(3_541_000).is_none());
    c.store_token("short".to_string(), 30, 5_000);
    assert!(c.cached_token(5_000).is_none());
}

#[test]
fn truelayer_requests_and_errors() {
    let c = TrueLayerClient::new(&truelayer_config("sandbox"));
    let form = c.token_request_form();
    assert_eq!(form[0], ("grant_type".to_string(), "client_credentials".to_string()));
    assert_eq!(form[1].1, "cid");
    assert_eq!(form[3], ("scope".to_string(), "payments".to_string()));
    assert_eq!(mandate_reference("u7"), "tachyon-u7");
    assert_eq!(bearer_header("t"), "Bearer t");
    assert_eq!(api_failure(402, "no funds".to_string()).message(), "API error 402: no funds");
    assert_eq!(TrueLayerError::Disabled.message(), "TrueLayer is not enabled");
    assert_eq!(TrueLayerError::AuthError("x".to_string()).message(), "Authentication error: x");
    assert_eq!(TrueLayerError::ConfigError("y".to_string()).message(), "Configuration error: y");
}

use tachyon_server::sync::{
    duplicate_reason, missing_document_reason, modified_step, next_edit_count, skipped, sync_error,
    unchanged_reason, ModifiedStep, SyncResult,
};

#[test]
fn modified_file_steps() {
    let t = |s: i64, n: u32| UtcTimestamp { seconds: s, nanos: n };
    assert_eq!(modified_step(None, "h", None), ModifiedStep::TreatAsCreated);
    assert_eq!(modified_step(Some((Some("h"), t(10, 0))), "h", None), ModifiedStep::Unchanged);
    assert_eq!(
        modified_step(Some((Some("old"), t(10, 0))), "h", Some(t(5, 0))),
        ModifiedStep::Update { conflict: true }
    );
    assert_eq!(
        modified_step(Some((Some("old"), t(10, 0))), "h", Some(t(10, 1))),
        ModifiedStep::Update { conflict: false }
    );
    assert_eq!(
        modified_step(Some((None, t(10, 5))), "h", Some(t(10, 1))),
        ModifiedStep::Update { conflict: true }
    );
    assert_eq!(
        modified_step(Some((None, t(10, 5))), "h", None),
        ModifiedStep::Update { conflict: false }
    );
}

#[test]
fn sync_outcome_texts() {
    assert_eq!(duplicate_reason("d1"), "Duplicate content (hash matches document d1)");
    assert_eq!(unchanged_reason(), "Content unchanged (hash matches)");
    assert_eq!(missing_document_reason("a/b"), "No existing document with slug 'a/b'");
    match sync_error("x.md", "Failed to read file", "denied") {
        SyncResult::Error { path, message } => {
            assert_eq!(path, "x.md");
            assert_eq!(message, "Failed to read file: denied");
        }
        other => panic!("unexpected {:?}", other),
    }
    match skipped("y.md", "r".to_string()) {
        SyncResult::Skipped { path, reason } => assert_eq!((path.as_str(), reason.as_str()), ("y.md", "r")),
        other => panic!("unexpected {:?}", other),
    }
    assert_eq!(next_edit_count(1), 2);
}

use tachyon_server::sso::ldap_runtime::{ldap_login_response, ldap_sync_report};

#[test]
fn directory_answers() {
    let r = ldap_login_response("alice".to_string(), "tok".to_string());
    assert_eq!((r.username.as_str(), r.display_name.as_str()), ("alice", "alice"));
    assert_eq!((r.token_type.as_str(), r.expires_in), ("Bearer", 3600));
    assert!(r.email.is_none());
    let s = ldap_sync_report();
    assert_eq!(s.users_synced + s.users_created + s.users_updated + s.users_deactivated, 0);
    assert_eq!(s.errors, vec!["LDAP sync not yet implemented".to_string()]);
}

#[test]
fn totp_codes_verify_within_the_skew_window() {
    let secret = "GEZDGNBVGY3TQOJQGEZDGNBVGY3TQOJQ";
    for t in [60u64, 1_000_000, 1_700_000_015] {
        let code = generate_totp_at(secret, t).unwrap();
        assert_eq!(verify_totp_at(secret, code, t), Ok(true));
        assert_eq!(verify_totp_at(secret, code, t + 30), Ok(true));
        assert_eq!(verify_totp_at(secret, code, t - 30), Ok(true));
    }
}

#[test]
fn saml_replays_are_refused() {
    assert_eq!(saml_replay_key("a-1"), "saml:assertion:a-1");
    assert_eq!(replay_check(false), Ok(()));
    assert_eq!(
        replay_check(true),
        Err("SAML assertion has already been used (possible replay attack)".to_string())
    );
}

#[test]
fn saml_logins_get_an_hour_long_bearer_token() {
    let c = saml_token_claims("alice@example.com", "https://idp.example.com", 1_000);
    assert_eq!(c.sub, "alice@example.com");
    assert_eq!(c.name, "alice@example.com");
    assert_eq!(c.role, "user");
    assert_eq!(c.iss, "tachyon");
    assert_eq!(c.aud, "tachyon-api");
    assert_eq!(c.iat, 1_000);
    assert_eq!(c.exp, 4_600);
    assert_eq!(c.sso_provider, "saml");
    assert_eq!(c.sso_issuer, "https://idp.example.com");
    let parsed = parse_saml_response(ASSERTION).unwrap();
    let r = saml_acs_response("tok".to_string(), parsed);
    assert_eq!(r.access_token, "tok");
    assert_eq!(r.token_type, "Bearer");
    assert_eq!(r.expires_in, SAML_TOKEN_LIFETIME_SECS);
    assert_eq!(r.expires_in, 3600);
    assert_eq!(r.name_id, "alice@example.com");
    assert_eq!(r.attributes.len(), 1);
}
