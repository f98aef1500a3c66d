use tachyon_server::routes::review::{
    approval_threshold, parse_review_status, review_request_link, review_request_title,
    review_update_event_type, review_update_link, review_update_title, review_version,
    ReviewStatusChange,
};
use tachyon_server::routes::role::{apply_role_update, RoleFields, UpdateRoleRequest};
use tachyon_server::routes::scim::JsonValue;
use tachyon_server::routes::space::required_owner;
use tachyon_server::routes::team::{
    apply_team_update, team_listing, TeamFields, TeamListing, TeamQuery, UpdateTeamRequest,
};
use tachyon_server::routes::search::{results_page, search_window, split_tag_list, SearchWindow};
use tachyon_server::routes::siem::{
    audit_entries_page, audit_entry_passes, audit_window, export_format, export_text, to_cef,
    to_leef, AuditEventExport, AuditListQuery, AuditWindow, ExportFormat,
};
use tachyon_server::routes::signup::{
    create_failure, email_availability, organization_name, plan_name, signup_success,
    validate_signup, SignupRequest,
};
use tachyon_server::routes::user::handlers::{
    decide_login, issued_tokens, mfa_challenge, registration_store_failure, rejected_login,
    token_failure, validate_registration, LoginDecision, LoginRejection,
};
use tachyon_server::routes::user::types::{RegisterRequest, UserResponse};

fn event(severity: &str, ip: Option<&str>, user: Option<&str>) -> AuditEventExport {
    AuditEventExport {
        id: "e1".to_string(),
        timestamp: "2024-01-01T00:00:00Z".to_string(),
        event_type: "login".to_string(),
        severity: severity.to_string(),
        user_id: user.map(|s| s.to_string()),
        ip_address: ip.map(|s| s.to_string()),
        description: "User logged in".to_string(),
        metadata: JsonValue::Null,
    }
}

#[test]
fn search_window_clamps_and_fetches_three_pages() {
    assert_eq!(search_window(0, 0), SearchWindow { page: 1, page_size: 1, fetch_limit: 3 });
    assert_eq!(search_window(3, 20), SearchWindow { page: 3, page_size: 20, fetch_limit: 60 });
    assert_eq!(search_window(-5, 500), SearchWindow { page: 1, page_size: 100, fetch_limit: 300 });
}

#[test]
fn results_page_skips_earlier_pages() {
    let items: Vec<u32> = (0..10).collect();
    assert_eq!(results_page(items.clone(), 1, 4), vec![0, 1, 2, 3]);
    assert_eq!(results_page(items.clone(), 3, 4), vec![8, 9]);
    assert!(results_page(items, 4, 4).is_empty());
}

#[test]
fn tag_lists_are_split_and_trimmed() {
    assert_eq!(split_tag_list(" rust , web,,x "), vec!["rust", "web", "", "x"]);
    assert_eq!(split_tag_list(""), vec![""]);
}

#[test]
fn cef_line_maps_severity() {
    assert_eq!(
        to_cef(&event("high", Some("10.0.0.1"), None)),
        "CEF:0|Tachyon|Audit|1.0|login|User logged in|8|src=10.0.0.1 dst=Tachyon"
    );
    assert_eq!(
        to_cef(&event("critical", None, None)),
        "CEF:0|Tachyon|Audit|1.0|login|User logged in|10|src=- dst=Tachyon"
    );
    assert!(to_cef(&event("unknown", None, None)).contains("|1|src=-"));
    assert!(to_cef(&event("medium", None, None)).contains("|5|"));
    assert!(to_cef(&event("low", None, None)).contains("|3|"));
}

#[test]
fn leef_line_names_user_and_source() {
    assert_eq!(
        to_leef(&event("low", Some("1.2.3.4"), Some("u1"))),
        "LEEF:2.0|Tachyon|Audit|1.0|login|sev=low src=1.2.3.4 usrName=u1 msg=User logged in"
    );
    assert_eq!(
        to_leef(&event("low", None, None)),
        "LEEF:2.0|Tachyon|Audit|1.0|login|sev=low src=- usrName=- msg=User logged in"
    );
}

#[test]
fn export_formats_and_bodies() {
    assert_eq!(export_format(None), ExportFormat::Json);
    assert_eq!(export_format(Some("CEF")), ExportFormat::Cef);
    assert_eq!(export_format(Some("leef")), ExportFormat::Leef);
    assert_eq!(export_format(Some("xml")), ExportFormat::Json);
    let events = vec![event("low", None, None), event("high", None, None)];
    let body = export_text(&events, ExportFormat::Cef);
    assert_eq!(body.lines().count(), 2);
    assert!(body.starts_with("CEF:0"));
    assert!(body.contains("\nCEF:0"));
    assert_eq!(export_text(&[], ExportFormat::Leef), "");
}

#[test]
fn audit_list_paging_and_filters() {
    let q = AuditListQuery { page: None, page_size: None, action: None, actor_id: None };
    assert_eq!(audit_window(&q), AuditWindow { page: 1, page_size: 20 });
    let q = AuditListQuery { page: Some(0), page_size: Some(1000), action: None, actor_id: None };
    assert_eq!(audit_window(&q), AuditWindow { page: 1, page_size: 100 });
    let q = AuditListQuery { page: Some(2), page_size: Some(0), action: None, actor_id: None };
    assert_eq!(audit_window(&q), AuditWindow { page: 2, page_size: 1 });
    assert!(audit_entry_passes("login", Some("a"), Some("login"), Some("a")));
    assert!(!audit_entry_passes("login", Some("a"), Some("logout"), None));
    assert!(!audit_entry_passes("login", None, None, Some("a")));
    assert!(audit_entry_passes("login", None, None, None));
    let entries: Vec<u8> = (0..5).collect();
    assert_eq!(audit_entries_page(entries, AuditWindow { page: 2, page_size: 2 }), vec![2, 3]);
}

#[test]
fn review_status_changes() {
    assert_eq!(parse_review_status("approved"), Ok(ReviewStatusChange::Approved));
    assert_eq!(parse_review_status("changes_requested"), Ok(ReviewStatusChange::ChangesRequested));
    assert_eq!(parse_review_status("cancelled"), Ok(ReviewStatusChange::Cancelled));
    assert_eq!(parse_review_status("rejected"), Ok(ReviewStatusChange::Rejected));
    assert_eq!(parse_review_status("pending"), Err("Invalid review status: pending".to_string()));
    assert_eq!(review_update_event_type("approved"), "review_approved");
    assert_eq!(review_update_event_type("rejected"), "review_rejected");
    assert_eq!(review_update_event_type("cancelled"), "review_updated");
    assert_eq!(review_version(None), 1);
    assert_eq!(review_version(Some(4)), 4);
    assert_eq!(approval_threshold(), 2);
    assert_eq!(review_request_title("doc1"), "Review requested on doc1");
    assert_eq!(review_request_link("doc1", "r9"), "/documents/doc1/reviews/r9");
    assert_eq!(review_update_title("approved"), "Review approved for document");
    assert_eq!(review_update_link("r9"), "/reviews/r9");
}

fn signup(username: &str, email: &str, password: &str, display: &str) -> SignupRequest {
    SignupRequest {
        username: username.to_string(),
        email: email.to_string(),
        password: password.to_string(),
        display_name: display.to_string(),
        plan: None,
    }
}

#[test]
fn signup_checks_in_order() {
    assert!(validate_signup(&signup("alice", "a@b.c", "password1", "Alice")).is_ok());
    let e = validate_signup(&signup("al", "a@b.c", "password1", "Alice")).unwrap_err();
    assert_eq!((e.status, e.body.code.as_str()), (400, "VALIDATION_ERROR"));
    assert_eq!(e.body.message, "Username must be between 3 and 50 characters");
    let e = validate_signup(&signup("alice", "ab.c", "password1", "Alice")).unwrap_err();
    assert_eq!(e.body.message, "Invalid email format");
    let e = validate_signup(&signup("alice", "a@b.c", "short", "Alice")).unwrap_err();
    assert_eq!(e.body.message, "Password must be at least 8 characters");
    let e = validate_signup(&signup("alice", "a@b.c", "password1", "")).unwrap_err();
    assert_eq!(e.body.message, "Display name must be between 1 and 100 characters");
    let e = validate_signup(&signup("al ice", "a@b.c", "password1", "Alice")).unwrap_err();
    assert_eq!(
        e.body.message,
        "Username may only contain alphanumeric characters, underscores, and hyphens"
    );
    assert!(validate_signup(&signup("al_ice-2", "a@b.c", "password1", "Alice")).is_ok());
}

#[test]
fn signup_outcomes() {
    let c = create_failure("duplicate key value violates unique constraint");
    assert_eq!((c.status, c.body.code.as_str()), (409, "CONFLICT"));
    let c = create_failure("connection reset");
    assert_eq!((c.status, c.body.code.as_str()), (500, "INTERNAL_ERROR"));
    assert_eq!(organization_name("Alice"), "Alice's Organization");
    assert_eq!(plan_name(None), "free");
    assert_eq!(plan_name(Some("pro")), "pro");
    let ok = signup_success("u1".to_string(), "o1".to_string());
    assert!(ok.success);
    assert_eq!(ok.message, "Account created successfully");
    assert!(ok.access_token.is_none());
}

fn register(username: &str, display: &str, password: &str, email: Option<&str>) -> RegisterRequest {
    RegisterRequest {
        username: username.to_string(),
        display_name: display.to_string(),
        email: email.map(|e| e.to_string()),
        password: password.to_string(),
    }
}

#[test]
fn registration_checks() {
    assert!(validate_registration(&register("bob", "Bob", "password1", None)).is_ok());
    let e = validate_registration(&register("bob", "", "password1", None)).unwrap_err();
    assert_eq!(e.body.message, "Display name must be between 1 and 100 characters");
    let e = validate_registration(&register("bob", "Bob", "pw", None)).unwrap_err();
    assert_eq!(e.body.message, "Password must be at least 8 characters");
    let e = validate_registration(&register("bob", "Bob", "password1", Some("bob"))).unwrap_err();
    assert_eq!(e.body.message, "Invalid email format");
    let e = validate_registration(&register("bad name!", "Bad", "password1", None)).unwrap_err();
    assert_eq!((e.status, e.body.code.as_str()), (400, "VALIDATION_ERROR"));
    assert_eq!(e.body.message, "Username can only contain letters, numbers, underscores, and hyphens");
    assert!(validate_registration(&register("bob_the-2nd", "Bob", "password1", None)).is_ok());
    let long = "p".repeat(129);
    let e = validate_registration(&register("bob", "Bob", &long, None)).unwrap_err();
    assert_eq!((e.status, e.body.code.as_str()), (400, "VALIDATION_ERROR"));
    assert_eq!(e.body.message, "Password must be at most 128 characters");
    assert!(validate_registration(&register("bob", "Bob", &"p".repeat(128), None)).is_ok());
    let f = registration_store_failure("user already exists");
    assert_eq!(f.status, 409);
    let f = token_failure();
    assert_eq!((f.status, f.body.code.as_str()), (500, "TOKEN_ERROR"));
}

#[test]
fn login_decisions() {
    assert_eq!(
        decide_login("", "pw", Some(Some(true)), true, false),
        LoginDecision::Reject(LoginRejection::EmptyUsername)
    );
    assert_eq!(
        decide_login("bob", "", Some(Some(true)), true, false),
        LoginDecision::Reject(LoginRejection::EmptyPassword)
    );
    assert_eq!(
        decide_login("bob", "pw", None, false, false),
        LoginDecision::Reject(LoginRejection::BadCredentials)
    );
    assert_eq!(
        decide_login("bob", "pw", Some(Some(false)), true, false),
        LoginDecision::Reject(LoginRejection::Disabled)
    );
    assert_eq!(
        decide_login("bob", "pw", Some(None), false, false),
        LoginDecision::Reject(LoginRejection::BadCredentials)
    );
    assert_eq!(decide_login("bob", "pw", Some(Some(true)), true, true), LoginDecision::RequireMfa);
    assert_eq!(decide_login("bob", "pw", Some(None), true, false), LoginDecision::IssueTokens);
}

fn user() -> UserResponse {
    UserResponse {
        id: "u1".to_string(),
        username: "bob".to_string(),
        display_name: "Bob".to_string(),
        email: None,
        user_type: "user".to_string(),
        role: "viewer".to_string(),
        is_active: true,
        created_at: "t".to_string(),
        updated_at: "t".to_string(),
    }
}

#[test]
fn login_answers() {
    let r = rejected_login(LoginRejection::Disabled, 3600);
    assert!(!r.success);
    assert_eq!(r.error.as_deref(), Some("Account is disabled"));
    assert_eq!(r.token_type, "Bearer");
    let r = rejected_login(LoginRejection::BadCredentials, 3600);
    assert_eq!(r.error.as_deref(), Some("Invalid username or password"));
    let m = mfa_challenge("u1", user(), 60);
    assert!(m.success && m.mfa_required);
    assert!(m.access_token.is_none());
    assert_eq!(m.mfa_user_id.as_deref(), Some("u1"));
    let t = issued_tokens("u1", "a".to_string(), "r".to_string(), user(), 60);
    assert!(t.success && !t.mfa_required);
    assert_eq!(t.access_token.as_deref(), Some("a"));
    assert_eq!(t.refresh_token.as_deref(), Some("r"));
    assert_eq!(t.expires_in, 60);
}

use tachyon_server::routes::password_reset::{
    base_url_or_default, bearer_token, email_delivery_enabled, email_verified, error_with_detail,
    invalid_token, password_reset_done, reset_email_body, reset_link, reset_requested,
    verification_email_body, verification_link, verification_requested,
};
use tachyon_server::sso::oidc_runtime::{
    authorization_url, callback_state, check_csrf_state, discovery_document_url,
    fallback_user_info, idp_error_message, sso_display_name, sso_provider_tag, token_lifetime,
    token_request_form, OidcCallbackQuery,
};

#[test]
fn bearer_headers() {
    assert_eq!(bearer_token(Some("Bearer abc.def")).unwrap(), "abc.def");
    let e = bearer_token(None).unwrap_err();
    assert_eq!((e.code.as_str(), e.message.as_str()), ("UNAUTHORIZED", "Authentication required"));
    let e = bearer_token(Some("Basic xyz")).unwrap_err();
    assert_eq!(e.message, "Invalid authorization header format");
    assert_eq!(bearer_token(Some("Bearer ")).unwrap(), "");
}

#[test]
fn reset_and_verification_messages() {
    assert_eq!(base_url_or_default(None), "http://localhost:8080");
    assert_eq!(base_url_or_default(Some("https://x")), "https://x");
    assert_eq!(reset_link("https://x", "t1"), "https://x/reset-password?token=t1");
    assert_eq!(verification_link("https://x", "t2"), "https://x/verify-email?token=t2");
    assert_eq!(
        reset_email_body("L"),
        "You requested a password reset. Click the link below to reset your password:\n\nL\n\nThis link expires in 1 hour. If you did not request this, you can safely ignore this email."
    );
    assert_eq!(
        verification_email_body("L"),
        "Please verify your email address by clicking the link below:\n\nL\n\nThis link expires in 24 hours."
    );
    assert!(!email_delivery_enabled(None));
    assert!(!email_delivery_enabled(Some("/dev/null")));
    assert!(email_delivery_enabled(Some("https://hooks.example/email")));
    assert!(reset_requested().message.contains("password reset link"));
    assert!(verification_requested().message.contains("verification link"));
    assert_eq!(invalid_token().code, "INVALID_TOKEN");
    assert_eq!(password_reset_done().message, "Password has been reset successfully.");
    assert_eq!(email_verified().message, "Email verified successfully.");
    let e = error_with_detail("TOKEN_ERROR", "Failed to create reset token", "db down");
    assert_eq!(e.message, "Failed to create reset token: db down");
}

#[test]
fn oidc_callback_checks() {
    assert_eq!(idp_error_message("access_denied", None), "OIDC error: access_denied");
    assert_eq!(
        idp_error_message("access_denied", Some("user said no")),
        "OIDC error: access_denied: user said no"
    );
    let q = OidcCallbackQuery {
        code: "c".to_string(),
        state: Some("s1".to_string()),
        error: None,
        error_description: None,
    };
    assert_eq!(callback_state(&q), Ok("s1".to_string()));
    let q = OidcCallbackQuery { code: "c".to_string(), state: None, error: None, error_description: None };
    assert_eq!(
        callback_state(&q),
        Err("Missing required state parameter for CSRF validation".to_string())
    );
    let q = OidcCallbackQuery {
        code: "c".to_string(),
        state: Some("s".to_string()),
        error: Some("bad".to_string()),
        error_description: None,
    };
    assert_eq!(callback_state(&q), Err("OIDC error: bad".to_string()));
    assert_eq!(
        check_csrf_state(Some(("s1".to_string(), Some("/home".to_string()))), "s1"),
        Ok(Some("/home".to_string()))
    );
    assert!(check_csrf_state(Some(("other".to_string(), None)), "s1").is_err());
    assert_eq!(
        check_csrf_state(None, "s1"),
        Err("Invalid or expired CSRF state parameter".to_string())
    );
}

#[test]
fn oidc_urls_and_forms() {
    assert_eq!(
        discovery_document_url("https://idp/"),
        "https://idp/.well-known/openid-configuration"
    );
    assert_eq!(
        discovery_document_url("https://idp"),
        "https://idp/.well-known/openid-configuration"
    );
    let scope = vec!["openid".to_string(), "email".to_string()];
    assert_eq!(
        authorization_url("https://idp/auth", "cid", "https://app/cb", &scope, "st-1"),
        "https://idp/auth?response_type=code&client_id=cid&redirect_uri=https%3A%2F%2Fapp%2Fcb&scope=openid%20email&state=st-1"
    );
    let form = token_request_form("code1", "https://app/cb", "cid", "sec");
    assert_eq!(form.len(), 5);
    assert_eq!(form[0], ("grant_type".to_string(), "authorization_code".to_string()));
    assert_eq!(form[4], ("client_secret".to_string(), "sec".to_string()));
    let info = fallback_user_info();
    assert_eq!(info.sub, "unknown");
    assert_eq!(sso_display_name(&info), "unknown");
    assert_eq!(sso_provider_tag("google"), "oidc:google");
    assert_eq!(token_lifetime(None), 3600);
    assert_eq!(token_lifetime(Some(60)), 60);
}

use tachyon_server::routes::user::handlers::{
    account_active, guest_account_id, guest_login_disabled, profile_update_failure,
    refresh_failure, session_token, RefreshFailure,
};

#[test]
fn user_session_and_refresh_answers() {
    assert_eq!(session_token(Some("Bearer tok")).ok(), Some("tok".to_string()));
    let f = session_token(Some("Token tok")).unwrap_err();
    assert_eq!((f.status, f.body.message.as_str()), (401, "Missing or invalid Authorization header"));
    assert!(session_token(None).is_err());
    let f = profile_update_failure("duplicate key");
    assert_eq!((f.status, f.body.message.as_str()), (409, "Email already in use"));
    let f = profile_update_failure("user already exists");
    assert_eq!((f.status, f.body.code.as_str()), (404, "NOT_FOUND"));
    let f = refresh_failure(RefreshFailure::UnknownToken);
    assert_eq!((f.status, f.body.code.as_str()), (401, "INVALID_TOKEN"));
    let f = refresh_failure(RefreshFailure::Disabled);
    assert_eq!(f.body.message, "Account is disabled");
    let f = refresh_failure(RefreshFailure::RefreshTokenFailed);
    assert_eq!((f.status, f.body.message.as_str()), (500, "Failed to generate refresh token"));
    assert!(account_active(None));
    assert!(!account_active(Some(false)));
    assert_eq!(guest_account_id(""), "00000000-0000-0000-0000-000000000099");
    assert_eq!(guest_account_id("abc"), "abc");
    assert_eq!(guest_login_disabled().status, 403);
}

use tachyon_server::routes::plugin::validate_plugin_fields;
use tachyon_server::routes::repository::repository_ready;
use tachyon_server::routes::role::validate_role_name;
use tachyon_server::routes::space::{placeholder_owner_id, validate_space_name};
use tachyon_server::routes::team::{validate_team_request, CreateTeamRequest};
use tachyon_server::routes::webhook::{validate_webhook_body, CreateWebhookBody};

#[test]
fn resource_validators() {
    let team = |name: &str, slug: &str| CreateTeamRequest {
        name: name.to_string(),
        slug: slug.to_string(),
        description: None,
    };
    assert!(validate_team_request(&team("Eng", "eng-1")).is_ok());
    assert_eq!(
        validate_team_request(&team("", "eng")),
        Err("Team name must be between 1 and 100 characters".to_string())
    );
    assert_eq!(
        validate_team_request(&team(&"x".repeat(101), "eng")),
        Err("Team name must be between 1 and 100 characters".to_string())
    );
    assert_eq!(
        validate_team_request(&team("Eng", "eng_1")),
        Err("Slug must contain only alphanumeric characters and hyphens".to_string())
    );
    assert!(validate_team_request(&team("Eng", "")).is_err());
    assert!(validate_role_name("editor").is_ok());
    assert!(validate_role_name("").is_err());
    assert_eq!(
        validate_role_name(&"r".repeat(51)),
        Err("Role name must be between 1 and 50 characters".to_string())
    );
    let hook = CreateWebhookBody { url: "https://h".to_string(), events: vec![], secret: None };
    let e = validate_webhook_body(&hook).unwrap_err();
    assert_eq!(e.message, "At least one event must be specified");
    let hook = CreateWebhookBody { url: "https://h".to_string(), events: vec!["x".to_string()], secret: None };
    assert!(validate_webhook_body(&hook).is_ok());
    assert_eq!(validate_space_name("   ").unwrap_err().message, "Space name is required");
    assert!(validate_space_name(" Docs ").is_ok());
    assert_eq!(placeholder_owner_id(), "00000000-0000-0000-0000-000000000000");
    assert_eq!(validate_plugin_fields(" ", "1.0"), Err("Plugin name is required".to_string()));
    assert_eq!(validate_plugin_fields("p", ""), Err("Plugin version is required".to_string()));
    assert!(validate_plugin_fields("p", "1.0").is_ok());
    assert!(repository_ready("active").is_ok());
    assert_eq!(repository_ready("pending"), Err("Repository is not initialized".to_string()));
}

use tachyon_server::routes::ssg::{
    document_limit, document_tags, documents_query, download_disposition, get_ssg_config,
    no_documents, site_settings, SsgBuildRequest, SsgNavLink,
};

#[test]
fn site_generation_settings() {
    let c = get_ssg_config();
    assert_eq!(c.site_title, "Tachyon");
    assert_eq!(c.theme, "auto");
    let req = SsgBuildRequest {
        title: None,
        description: Some("Mine".to_string()),
        base_url: None,
        theme: None,
        custom_css: Some("body{}".to_string()),
        nav_links: Some(vec![SsgNavLink { label: "Home".to_string(), href: "/".to_string() }]),
        group_by_tag: None,
        project_id: None,
        limit: None,
    };
    let s = site_settings(req);
    assert_eq!(s.title, "Tachyon Docs");
    assert_eq!(s.description, "Mine");
    assert_eq!(s.base_url, "https://docs.example.com");
    assert_eq!(s.theme, "auto");
    assert_eq!(s.custom_css.as_deref(), Some("body{}"));
    assert_eq!(s.nav_links.len(), 1);
    assert!(!s.group_by_tag);
    assert_eq!(document_limit(None), 10000);
    assert_eq!(document_limit(Some(0)), 10000);
    assert_eq!(document_limit(Some(25)), 25);
    assert_eq!(
        documents_query(None, 10000),
        "SELECT id::text, title, slug, content, description, tags, created_at, updated_at FROM documents WHERE status = 'published' ORDER BY updated_at DESC LIMIT 10000"
    );
    assert_eq!(
        documents_query(Some("p-1"), 5),
        "SELECT id::text, title, slug, content, description, tags, created_at, updated_at FROM documents WHERE status = 'published' AND project_id = 'p-1'::uuid ORDER BY updated_at DESC LIMIT 5"
    );
    let tags = Some(JsonValue::Array(vec![
        JsonValue::String("a".to_string()),
        JsonValue::Number("1".to_string()),
        JsonValue::String("b".to_string()),
    ]));
    assert_eq!(document_tags(&tags), vec!["a".to_string(), "b".to_string()]);
    assert!(document_tags(&Some(JsonValue::String("x".to_string()))).is_empty());
    assert!(document_tags(&None).is_empty());
    assert_eq!(no_documents().code, "NO_DOCUMENTS");
    assert_eq!(download_disposition(), "attachment; filename=\"tachyon-site.zip\"");
}

use tachyon_server::routes::search::{search_date_bound, search_failure, search_filters, SearchQuery};

#[test]
fn search_filters_from_request() {
    let q = SearchQuery {
        q: "rust".to_string(),
        page: 1,
        page_size: 20,
        content_type: Some("note".to_string()),
        status: None,
        visibility: None,
        project_id: None,
        author_id: Some("a1".to_string()),
        tags: Some("x, y".to_string()),
        date_from: Some("2024-01-02T03:04:05Z".to_string()),
        date_to: Some("not a date".to_string()),
    };
    let f = search_filters(q);
    assert_eq!(f.content_type.as_deref(), Some("note"));
    assert_eq!(f.author_id.as_deref(), Some("a1"));
    assert_eq!(f.tags, Some(vec!["x".to_string(), "y".to_string()]));
    let from = f.date_from.unwrap();
    assert_eq!(from.seconds, 1704164645);
    assert_eq!(from.nanos, 0);
    assert!(f.date_to.is_none());
    assert!(search_date_bound(None).is_none());
    assert_eq!(search_date_bound(Some("1970-01-01T00:00:01.5+00:00")).unwrap().nanos, 500_000_000);
    let e = search_failure("timeout");
    assert_eq!((e.code.as_str(), e.message.as_str()), ("SEARCH_ERROR", "Search failed: timeout"));
}

#[test]
fn team_updates_change_only_given_fields() {
    let mut t = TeamFields { name: "Eng".to_string(), slug: "eng".to_string(), description: None };
    apply_team_update(
        &mut t,
        UpdateTeamRequest { name: None, slug: Some("engineering".to_string()), description: Some("d".to_string()) },
    );
    assert_eq!(t.name, "Eng");
    assert_eq!(t.slug, "engineering");
    assert_eq!(t.description, Some("d".to_string()));
}

#[test]
fn team_listing_prefers_the_owner() {
    let q = TeamQuery { owner_id: Some("o".to_string()), user_id: Some("u".to_string()) };
    assert_eq!(team_listing(&q), TeamListing::OwnedBy("o".to_string()));
    let q = TeamQuery { owner_id: None, user_id: Some("u".to_string()) };
    assert_eq!(team_listing(&q), TeamListing::MemberOf("u".to_string()));
    let q = TeamQuery { owner_id: None, user_id: None };
    assert_eq!(team_listing(&q), TeamListing::OwnedBy(String::new()));
}

#[test]
fn system_roles_cannot_be_updated() {
    let mut r = RoleFields {
        name: "admin".to_string(),
        description: None,
        permissions: vec!["all".to_string()],
        is_system: true,
    };
    let req = UpdateRoleRequest { name: Some("x".to_string()), description: None, permissions: None };
    assert_eq!(apply_role_update(&mut r, req), Err("Cannot modify system roles".to_string()));
    assert_eq!(r.name, "admin");

    let mut r = RoleFields { name: "custom".to_string(), description: None, permissions: vec![], is_system: false };
    let req = UpdateRoleRequest {
        name: None,
        description: Some("d".to_string()),
        permissions: Some(vec!["read".to_string()]),
    };
    assert_eq!(apply_role_update(&mut r, req), Ok(()));
    assert_eq!(r.name, "custom");
    assert_eq!(r.description, Some("d".to_string()));
    assert_eq!(r.permissions, vec!["read".to_string()]);
}

#[test]
fn child_space_listings_need_an_owner() {
    assert_eq!(required_owner(Some("o-1")).unwrap(), "o-1");
    let e = required_owner(None).unwrap_err();
    assert_eq!(e.code, "OWNER_REQUIRED");
    assert_eq!(e.message, "owner_id query parameter is required");
}

#[test]
fn signup_refuses_a_registered_email() {
    assert!(email_availability(false).is_ok());
    let f = email_availability(true).unwrap_err();
    assert_eq!(f.status, 409);
    assert_eq!(f.body.code, "CONFLICT");
    assert_eq!(f.body.message, "Email already registered");
}
