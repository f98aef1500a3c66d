use tachyon_server::routes::password_reset::hash_token;
use tachyon_server::routes::scim::UserRole;
use tachyon_server::routes::user::types::{
    access_claims, fallback_secret, generate_refresh_token, hash_refresh_token, next_secret,
    signing_secret, SecretStep, REFRESH_TOKEN_EXPIRATION_SECS,
};

#[test]
fn access_claims_carry_the_account_and_the_window() {
    let c = access_claims("user-1", UserRole::Writer, 1_000, 3_600, "tachyon", "tachyon-api");
    assert_eq!(c.sub, "user-1");
    assert_eq!(c.iss, "tachyon");
    assert_eq!(c.aud, "tachyon-api");
    assert_eq!(c.iat, 1_000);
    assert_eq!(c.exp, 4_600);
    assert_eq!(c.role, "writer");
    assert!(c.permissions.is_empty());
    assert!(c.team_id.is_none());
}

#[test]
fn signing_uses_the_first_secret() {
    let secrets = vec!["new".to_string(), "old".to_string()];
    assert_eq!(signing_secret(&secrets), Ok("new".to_string()));
    assert_eq!(signing_secret(&[]), Err("JWT secret not configured".to_string()));
    assert_eq!(fallback_secret(&secrets), "new");
    assert_eq!(fallback_secret(&[]), "");
}

#[test]
fn refresh_tokens_are_hashed_like_other_tokens() {
    let h = hash_refresh_token("refresh-me");
    assert_eq!(h.len(), 64);
    assert_eq!(h, hash_token("refresh-me"));
    assert_eq!(
        hash_refresh_token(""),
        "e3b0c44298fc1c149afbf4c8996fb92427ae41e4649b934ca495991b7852b855"
    );
}

#[test]
fn refresh_tokens_are_random_hex() {
    let a = generate_refresh_token();
    let b = generate_refresh_token();
    assert_eq!(a.len(), 64);
    assert!(a.chars().all(|c| c.is_ascii_hexdigit() && !c.is_ascii_uppercase()));
    assert_ne!(a, b);
    assert_eq!(REFRESH_TOKEN_EXPIRATION_SECS, 30 * 24 * 60 * 60);
}

#[test]
fn token_checks_try_each_secret_then_report_under_the_first() {
    let secrets = vec!["new".to_string(), "old".to_string()];
    assert_eq!(next_secret(&secrets, 0), SecretStep::Try("new".to_string()));
    assert_eq!(next_secret(&secrets, 1), SecretStep::Try("old".to_string()));
    assert_eq!(next_secret(&secrets, 2), SecretStep::Report("new".to_string()));
    assert_eq!(next_secret(&[], 0), SecretStep::Report(String::new()));
}
