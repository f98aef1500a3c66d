use tachyon_server::routes::password_reset::{generate_token, hash_token};
use tachyon_server::routes::repository::{
    push_branch, repository_owner, repository_slug, CloneRepositoryRequest, CommitRequest,
    InitRepositoryRequest,
};
use tachyon_server::routes::session::{CreateSessionRequest, SessionResponse};
use tachyon_server::routes::review::{
    CommentResponse, CreateCommentBody, CreateReviewBody, ReviewStatusResponse, UpdateReviewBody,
};
use tachyon_server::routes::role::CreateRoleRequest;
use tachyon_server::routes::scim::{
    apply_patch_op, apply_patch_operations, apply_remove_op, generate_random_password,
    parse_filter, parse_role, primary_email, scim_display_name, scim_emails, scim_name_of,
    scim_new_user, scim_paging, scim_update_user, scim_user_location, verify_bearer_token,
    JsonValue, ScimEmail, ScimFilter, ScimGroup, ScimName, ScimPatchOperation, ScimRole, ScimUser,
    UserRecord, UserRole,
};
use tachyon_server::routes::scim::{
    group_matches, groups_page, parse_group_filter, scim_error, scim_list, service_provider_config,
    GroupFilter, ScimError, ScimListResponse,
};
use tachyon_server::validation::search::UtcTimestamp;
use tachyon_server::routes::search::{default_page, default_page_size, default_suggest_limit};
use tachyon_server::routes::plugin::{default_timeout, CreatePluginBody};
use tachyon_server::routes::space::CreateSpaceBody;
use tachyon_server::routes::team::CreateTeamRequest;
use tachyon_server::routes::user;
use tachyon_server::routes::v2::{
    listing_pagination, listing_window, search_request, v2_error, v2_health, v2_ok, visible_to_caller,
    V2DocumentQuery, V2SearchQuery,
};
use tachyon_server::routes::webhook::CreateWebhookBody;

#[test]
fn test_clone_repository_request_construction() {
    let req = CloneRepositoryRequest {
        source: "repo-1".to_string(),
        name: "my-clone".to_string(),
    };

    assert_eq!(req.source, "repo-1");
    assert_eq!(req.name, "my-clone");
}

#[test]
fn test_create_review_body_deserialization() {
    let body = CreateReviewBody {
        version_number: Some(3),
        reviewer_id: "user-123".to_string(),
        summary: Some("Please review".to_string()),
    };
    assert_eq!(body.version_number, Some(3));
    assert_eq!(body.reviewer_id, "user-123");
}

#[test]
fn test_update_review_body_deserialization() {
    let body = UpdateReviewBody {
        status: "approved".to_string(),
        summary: Some("Looks good".to_string()),
    };
    assert_eq!(body.status, "approved");
}

#[test]
fn test_create_comment_body_deserialization() {
    let body = CreateCommentBody {
        author_id: "user-456".to_string(),
        content: "Nit: fix typo on line 3".to_string(),
        line_number: Some(3),
        section: None,
    };
    assert_eq!(body.content, "Nit: fix typo on line 3");
    assert_eq!(body.line_number, Some(3));
}

#[test]
fn test_create_comment_body_with_section() {
    let body = CreateCommentBody {
        author_id: "user-456".to_string(),
        content: "Section comment".to_string(),
        line_number: Some(10),
        section: Some("Methods".to_string()),
    };
    assert_eq!(body.section.as_deref(), Some("Methods"));
}

#[test]
fn test_review_status_response_with_approval() {
    let resp = ReviewStatusResponse {
        pending_count: 1,
        latest_status: Some("approved".to_string()),
        approval_threshold: Some(2),
        approved_count: Some(1),
        is_fully_approved: Some(false),
    };
    assert_eq!(resp.approval_threshold, Some(2));
    assert_eq!(resp.approved_count, Some(1));
    assert_eq!(resp.is_fully_approved, Some(false));
}

#[test]
fn test_comment_response_with_position() {
    let resp = CommentResponse {
        id: "c1".to_string(),
        review_id: "r1".to_string(),
        author_id: "u1".to_string(),
        content: "Fix here".to_string(),
        created_at: "2026-01-01T00:00:00+00:00".to_string(),
        line_number: Some(42),
        section: Some("Intro".to_string()),
    };
    assert_eq!(resp.line_number, Some(42));
    assert_eq!(resp.section.as_deref(), Some("Intro"));
}

#[test]
fn test_create_role_request() {
    let req = CreateRoleRequest {
        name: "custom".to_string(),
        description: Some("Custom role".to_string()),
        permissions: vec!["read".to_string(), "write".to_string()],
    };
    assert_eq!(req.name, "custom");
    assert_eq!(req.permissions.len(), 2);
}

#[test]
fn test_create_space_body_deserialization() {
    let body = CreateSpaceBody {
        name: "My Space".to_string(),
        description: Some("A test space".to_string()),
        icon: Some("folder".to_string()),
        color: Some("#3B82F6".to_string()),
        parent_id: None,
        visibility: Some("private".to_string()),
    };
    assert_eq!(body.name, "My Space");
    assert_eq!(body.visibility.as_deref(), Some("private"));
}

#[test]
fn test_create_team_request() {
    let req = CreateTeamRequest {
        name: "Engineering".to_string(),
        slug: "engineering".to_string(),
        description: Some("Engineering team".to_string()),
    };
    assert_eq!(req.name, "Engineering");
}

#[test]
fn user_test_register_request_construction() {
    let req = user::RegisterRequest {
        username: "testuser".to_string(),
        display_name: "Test User".to_string(),
        email: Some("test@example.com".to_string()),
        password: "password123".to_string(),
    };
    assert_eq!(req.username, "testuser");
    assert_eq!(req.display_name, "Test User");
}

#[test]
fn user_test_update_profile_request_construction() {
    let req = user::UpdateProfileRequest {
        display_name: Some("New Name".to_string()),
        email: None,
    };
    assert_eq!(req.display_name.as_deref(), Some("New Name"));
    assert!(req.email.is_none());
}

#[test]
fn tests_test_register_request_construction() {
    let req = user::types::RegisterRequest {
        username: "testuser".to_string(),
        display_name: "Test User".to_string(),
        email: Some("test@example.com".to_string()),
        password: "password123".to_string(),
    };
    assert_eq!(req.username, "testuser");
    assert_eq!(req.display_name, "Test User");
}

#[test]
fn tests_test_update_profile_request_construction() {
    let req = user::types::UpdateProfileRequest {
        display_name: Some("New Name".to_string()),
        email: None,
    };
    assert_eq!(req.display_name.as_deref(), Some("New Name"));
    assert!(req.email.is_none());
}

#[test]
fn test_v2_private_document_access_is_denied_cross_tenant() {
    assert!(!visible_to_caller("private", "owner", Some("other"), false));
    assert!(visible_to_caller("private", "owner", Some("owner"), false));
    assert!(visible_to_caller("private", "owner", Some("other"), true));
}

#[test]
fn test_v2_public_document_access_allows_guests() {
    assert!(visible_to_caller("public", "owner", None, false));
}

#[test]
fn test_v2_document_query_defaults() {
    let query = V2DocumentQuery {
        page: None,
        per_page: None,
        author_id: None,
        project_id: None,
    };
    assert_eq!(query.page.unwrap_or(1), 1);
    assert_eq!(query.per_page.unwrap_or(20), 20);
}

#[test]
fn test_v2_search_query_defaults() {
    let query = V2SearchQuery {
        q: "test".to_string(),
        page: None,
        page_size: None,
        content_type: None,
        status: None,
        visibility: None,
        project_id: None,
        author_id: None,
        tags: None,
    };
    assert_eq!(query.q, "test");
    assert_eq!(query.page.unwrap_or(1), 1);
    assert_eq!(query.page_size.unwrap_or(20), 20);
}

#[test]
fn v2_listing_and_search_defaults() {
    let window = listing_window(&V2DocumentQuery {
        page: Some(0),
        per_page: Some(500),
        author_id: None,
        project_id: None,
    });
    assert_eq!((window.page, window.per_page, window.offset), (1, 100, 0));
    let window = listing_window(&V2DocumentQuery {
        page: Some(3),
        per_page: None,
        author_id: None,
        project_id: None,
    });
    assert_eq!(window.offset, 40);
    let p = listing_pagination(2, 20, 41);
    assert_eq!(p.total_pages, 3);
    assert!(p.has_next && p.has_prev);
    assert_eq!(listing_pagination(1, 20, 0).total_pages, 0);
    let req = search_request(V2SearchQuery {
        q: "x".to_string(),
        page: None,
        page_size: Some(5),
        content_type: None,
        status: None,
        visibility: None,
        project_id: None,
        author_id: None,
        tags: None,
    });
    assert_eq!((req.page, req.page_size), (1, 5));
    assert!(req.date_from.is_none());
}

#[test]
fn test_create_webhook_body_deserialization() {
    let body = CreateWebhookBody {
        url: "https://example.com/hook".to_string(),
        events: vec!["document_created".to_string(), "document_updated".to_string()],
        secret: Some("s3cret".to_string()),
    };
    assert_eq!(body.url, "https://example.com/hook");
    assert_eq!(body.events.len(), 2);
}

#[test]
fn route_defaults() {
    assert_eq!(default_page(), 1);
    assert_eq!(default_page_size(), 20);
    assert_eq!(default_suggest_limit(), 10);
    assert_eq!(default_timeout(), 5000);
}

#[test]
fn test_hash_token_deterministic() {
    let hash1 = hash_token("test-token");
    let hash2 = hash_token("test-token");
    assert_eq!(hash1, hash2);
    assert_eq!(hash1.len(), 64);
}

#[test]
fn test_hash_token_different_inputs() {
    let hash1 = hash_token("token-a");
    let hash2 = hash_token("token-b");
    assert_ne!(hash1, hash2);
}

#[test]
fn test_generate_token_unique() {
    let t1 = generate_token();
    let t2 = generate_token();
    assert_ne!(t1, t2);
    assert!(!t1.contains('-'));
}

#[test]
fn test_hash_token_empty_string() {
    let hash = hash_token("");
    assert_eq!(hash.len(), 64);
    let hash2 = hash_token("");
    assert_eq!(hash, hash2);
}

#[test]
fn test_hash_token_is_valid_hex() {
    let hash = hash_token("some-token");
    assert!(hex::decode(&hash).is_ok(), "Token hash should be valid hex");
}

#[test]
fn test_generate_token_length() {
    let token = generate_token();
    assert_eq!(token.len(), 32, "UUID without dashes should be 32 chars");
}

#[test]
fn test_generate_token_no_dashes() {
    let token = generate_token();
    assert!(!token.contains('-'));
}

#[test]
fn test_hash_token_long_input() {
    let long = "a".repeat(10_000);
    let hash = hash_token(&long);
    assert_eq!(hash.len(), 64);
}

#[test]
fn hash_token_known_value() {
    assert_eq!(
        hash_token("abc"),
        "ba7816bf8f01cfea414140de5dae2223b00361a396177a9cb410ff61f20015ad"
    );
}

fn make_test_user() -> UserRecord {
    UserRecord {
        username: "john.doe".to_string(),
        display_name: "John Doe".to_string(),
        email: Some("john@example.com".to_string()),
        is_active: Some(true),
        role: UserRole::Editor,
    }
}

#[test]
fn test_filter_parse_unsupported() {
    let result = parse_filter("displayName eq 'test'");
    assert!(result.is_err());
}

#[test]
fn test_parse_role() {
    assert!(matches!(parse_role("admin"), UserRole::Admin));
    assert!(matches!(parse_role("Admin"), UserRole::Admin));
    assert!(matches!(parse_role("editor"), UserRole::Editor));
    assert!(matches!(parse_role("writer"), UserRole::Writer));
    assert!(matches!(parse_role("reader"), UserRole::Reader));
    assert!(matches!(parse_role("unknown"), UserRole::Reader));
}

#[test]
fn test_filter_parse_username() {
    let filter = parse_filter(r#"userName eq "john.doe""#).unwrap();
    let user = make_test_user();
    assert!(filter.matches(&user));
}

#[test]
fn test_filter_parse_active() {
    let filter = parse_filter("active eq true").unwrap();
    let user = make_test_user();
    assert!(filter.matches(&user));

    let filter = parse_filter("active eq false").unwrap();
    assert!(!filter.matches(&user));
}

#[test]
fn test_filter_parse_email() {
    let filter = parse_filter(r#"emails.value eq "john@example.com""#).unwrap();
    let user = make_test_user();
    assert!(filter.matches(&user));
}

#[test]
fn test_filter_parse_display_name_co() {
    let filter = parse_filter(r#"displayName co "ohn""#).unwrap();
    let user = make_test_user();
    assert!(filter.matches(&user));

    let filter = parse_filter(r#"displayName co "xyz""#).unwrap();
    assert!(!filter.matches(&user));
}

#[test]
fn test_filter_parse_display_name_co_case_insensitive() {
    let filter = parse_filter(r#"displayName co "JOHN""#).unwrap();
    let user = make_test_user();
    assert!(filter.matches(&user));
}

#[test]
fn filter_errors_and_case() {
    assert!(matches!(parse_filter("  userName eq \"JOHN.DOE\" "), Ok(ScimFilter::UserNameEq(_))));
    assert!(parse_filter("userName eq \"JOHN.DOE\"").unwrap().matches(&make_test_user()));
    assert_eq!(parse_filter("userName eq \"\"").unwrap_err(), "userName value cannot be empty");
    assert_eq!(
        parse_filter("active eq yes").unwrap_err(),
        "active must be 'true' or 'false', got: yes"
    );
    assert_eq!(parse_filter("x").unwrap_err(), "Unsupported SCIM filter: x");
}

#[test]
fn test_apply_patch_active() {
    let mut user = make_test_user();
    let value = Some(JsonValue::Bool(false));
    apply_patch_op(&mut user, "active", &value);
    assert_eq!(user.is_active, Some(false));
}

#[test]
fn test_apply_patch_display_name() {
    let mut user = make_test_user();
    let value = Some(JsonValue::String("New Display Name".to_string()));
    apply_patch_op(&mut user, "displayName", &value);
    assert_eq!(user.display_name, "New Display Name");
}

#[test]
fn test_apply_patch_email() {
    let mut user = make_test_user();
    let value = Some(JsonValue::String("newemail@example.com".to_string()));
    apply_patch_op(&mut user, "emails.value", &value);
    assert_eq!(user.email, Some("newemail@example.com".to_string()));
}

#[test]
fn test_apply_patch_role() {
    let mut user = make_test_user();
    let value = Some(JsonValue::Array(vec![JsonValue::Object(vec![(
        "value".to_string(),
        JsonValue::String("admin".to_string()),
    )])]));
    apply_patch_op(&mut user, "roles", &value);
    assert_eq!(user.role, UserRole::Admin);
}

#[test]
fn test_apply_remove_emails() {
    let mut user = make_test_user();
    apply_remove_op(&mut user, "emails");
    assert!(user.email.is_none());
}

#[test]
fn patch_names_and_operations() {
    let mut user = make_test_user();
    apply_patch_op(&mut user, "name.givenName", &Some(JsonValue::String("Jane".to_string())));
    assert_eq!(user.display_name, "Jane Doe");
    apply_patch_op(&mut user, "name.familyName", &Some(JsonValue::String("Roe".to_string())));
    assert_eq!(user.display_name, "Jane Roe");
    apply_patch_op(
        &mut user,
        "emails",
        &Some(JsonValue::Array(vec![JsonValue::String("x@y.z".to_string())])),
    );
    assert_eq!(user.email.as_deref(), Some("x@y.z"));
    let ops = vec![
        ScimPatchOperation {
            op: "remove".to_string(),
            path: "active".to_string(),
            value: None,
        },
        ScimPatchOperation {
            op: "move".to_string(),
            path: "roles".to_string(),
            value: None,
        },
    ];
    assert_eq!(
        apply_patch_operations(&mut user, &ops).unwrap_err(),
        "Unsupported patch operation: move"
    );
    assert_eq!(user.is_active, Some(false));
}

#[test]
fn test_bearer_token_verification_valid() {
    assert!(verify_bearer_token(Some("Bearer valid-token"), "valid-token").is_ok());
}

#[test]
fn test_bearer_token_verification_missing() {
    assert!(verify_bearer_token(None, "valid-token").is_err());
}

#[test]
fn test_bearer_token_verification_invalid() {
    assert!(verify_bearer_token(Some("Bearer wrong-token"), "valid-token").is_err());
}

#[test]
fn test_random_password_generation() {
    let pw = generate_random_password();
    assert_eq!(pw.len(), 32);
    assert!(pw.chars().all(|c| c.is_ascii_alphanumeric()));
}

#[test]
fn scim_paging_pages() {
    assert_eq!(scim_paging(None, None), (1, 100));
    assert_eq!(scim_paging(Some(21), Some(10)), (3, 10));
    assert_eq!(scim_paging(Some(0), Some(500)), (1, 100));
}

#[test]
fn test_scim_user_to_internal_user_conversion() {
    let name = ScimName { given_name: Some("Test".to_string()), family_name: Some("User".to_string()) };
    let emails = vec![ScimEmail { value: "test@example.com".to_string(), primary: Some(true) }];
    let roles = vec![ScimRole { value: "writer".to_string() }];
    let user = scim_new_user("test.user", Some("Test User"), Some(&name), &emails, Some(&roles), Some(true))
        .unwrap();
    assert_eq!(user.username, "test.user");
    assert_eq!(user.display_name, "Test User");
    assert_eq!(user.email, Some("test@example.com".to_string()));
    assert_eq!(user.role, UserRole::Writer);
    assert_eq!(user.is_active, Some(true));
}

#[test]
fn test_scim_user_to_internal_user_update() {
    let mut updated = make_test_user();
    let name = ScimName { given_name: Some("Updated".to_string()), family_name: Some("Name".to_string()) };
    let emails = vec![ScimEmail { value: "updated@example.com".to_string(), primary: Some(true) }];
    let roles = vec![ScimRole { value: "admin".to_string() }];
    scim_update_user(&mut updated, Some(&name), Some("Updated Name"), &emails, Some(false), Some(&roles));
    assert_eq!(updated.display_name, "Updated Name");
    assert_eq!(updated.email, Some("updated@example.com".to_string()));
    assert_eq!(updated.role, UserRole::Admin);
    assert_eq!(updated.is_active, Some(false));
}

#[test]
fn test_scim_user_create_requires_username() {
    assert!(scim_new_user("", None, None, &[], None, None).is_err());
}

#[test]
fn test_scim_user_display_name_from_name() {
    let name = ScimName { given_name: Some("John".to_string()), family_name: Some("Doe".to_string()) };
    let user = scim_new_user("jdoe", None, Some(&name), &[], None, None).unwrap();
    assert_eq!(user.display_name, "John Doe");
}

#[test]
fn scim_create_defaults() {
    let user = scim_new_user("jdoe", None, None, &[], None, None).unwrap();
    assert_eq!(user.display_name, "jdoe");
    assert_eq!(user.role, UserRole::Reader);
    assert_eq!(user.is_active, Some(true));
    assert_eq!(user.email, None);
    let emails = vec![
        ScimEmail { value: "a@x".to_string(), primary: None },
        ScimEmail { value: "b@x".to_string(), primary: Some(true) },
    ];
    assert_eq!(primary_email(&emails), Some("b@x".to_string()));
    let emails = vec![ScimEmail { value: "a@x".to_string(), primary: Some(false) }];
    assert_eq!(primary_email(&emails), Some("a@x".to_string()));
    let empty = ScimName { given_name: None, family_name: None };
    let user = scim_new_user("jdoe", None, Some(&empty), &[], Some(&vec![]), Some(false)).unwrap();
    assert_eq!(user.display_name, "");
    assert_eq!(user.is_active, Some(false));
}

#[test]
fn scim_update_keeps_what_is_not_given() {
    let mut user = make_test_user();
    let before_email = user.email.clone();
    let empty = ScimName { given_name: None, family_name: None };
    scim_update_user(&mut user, Some(&empty), None, &[], None, Some(&vec![]));
    assert_eq!(user.display_name, "John Doe");
    assert_eq!(user.email, before_email);
    let name = ScimName { given_name: Some("Jane".to_string()), family_name: None };
    scim_update_user(&mut user, Some(&name), None, &[], None, None);
    assert_eq!(user.display_name, "Jane");
}

#[test]
fn scim_user_form_of_an_account() {
    let n = scim_name_of("Ada Lovelace King").unwrap();
    assert_eq!(n.given_name.as_deref(), Some("Ada"));
    assert_eq!(n.family_name.as_deref(), Some("Lovelace King"));
    let n = scim_name_of("Plato").unwrap();
    assert_eq!(n.given_name.as_deref(), Some("Plato"));
    assert!(n.family_name.is_none());
    assert!(scim_name_of("").is_none());
    assert_eq!(scim_display_name(""), None);
    assert_eq!(scim_display_name("X"), Some("X".to_string()));
    let e = scim_emails(Some("a@b.c"));
    assert_eq!(e.len(), 1);
    assert_eq!(e[0].primary, Some(true));
    assert!(scim_emails(None).is_empty());
    assert_eq!(
        scim_user_location(Some("https://t"), "u1"),
        Some("https://t/api/v1/scim/v2/Users/u1".to_string())
    );
    assert_eq!(scim_user_location(None, "u1"), None);
}

fn stamp() -> UtcTimestamp {
    UtcTimestamp { seconds: 1_700_000_000, nanos: 0 }
}

#[test]
fn test_scim_user_schema_field() {
    let user = make_test_user();
    let scim = ScimUser::from_user(&user, "user-1", stamp(), stamp(), None);
    assert_eq!(scim.schemas, vec!["urn:ietf:params:scim:schemas:core:2.0:User".to_string()]);
}

#[test]
fn test_scim_user_serialization() {
    let user = make_test_user();
    let scim = ScimUser::from_user(&user, "user-1", stamp(), stamp(), Some("https://tachyon.example.com"));
    assert_eq!(scim.schemas, vec!["urn:ietf:params:scim:schemas:core:2.0:User".to_string()]);
    assert_eq!(scim.user_name, "john.doe");
    assert_eq!(scim.display_name, Some("John Doe".to_string()));
    assert_eq!(scim.emails.len(), 1);
    assert_eq!(scim.emails[0].value, "john@example.com");
    assert_eq!(scim.emails[0].primary, Some(true));
    assert_eq!(scim.active, Some(true));
    assert_eq!(
        scim.meta.as_ref().unwrap().location,
        Some("https://tachyon.example.com/api/v1/scim/v2/Users/user-1".to_string())
    );
    assert_eq!(scim.roles.as_ref().unwrap()[0].value, "editor");
}

#[test]
fn test_scim_group_serialization() {
    let group = ScimGroup::from_team(
        "test-team-id",
        "Engineering",
        stamp(),
        stamp(),
        Some("https://tachyon.example.com"),
    );
    assert_eq!(group.schemas, vec!["urn:ietf:params:scim:schemas:core:2.0:Group".to_string()]);
    assert_eq!(group.display_name, "Engineering");
    assert_eq!(group.id, "test-team-id");
}

#[test]
fn test_scim_group_with_members() {
    let members = vec!["user-1".to_string(), "user-2".to_string()];
    let group = ScimGroup::from_team_with_members("team-1", "Dev", stamp(), stamp(), &members, None);
    let ms = group.members.as_ref().unwrap();
    assert_eq!(ms.len(), 2);
    assert_eq!(ms[0].value, Some("user-1".to_string()));
    assert_eq!(ms[1].value, Some("user-2".to_string()));
    assert_eq!(ms[0].ref_url, None);
}

#[test]
fn test_scim_group_from_team_without_base_url() {
    let group = ScimGroup::from_team("team-2", "Product", stamp(), stamp(), None);
    assert!(group.meta.as_ref().unwrap().location.is_none());
}

#[test]
fn test_scim_group_from_team_with_base_url() {
    let group = ScimGroup::from_team("team-3", "Sales", stamp(), stamp(), Some("https://tachyon.example.com"));
    assert_eq!(
        group.meta.as_ref().unwrap().location,
        Some("https://tachyon.example.com/api/v1/scim/v2/Groups/team-3".to_string())
    );
}

#[test]
fn scim_group_member_links() {
    let members = vec!["u-9".to_string()];
    let group = ScimGroup::from_team_with_members("t", "T", stamp(), stamp(), &members, Some("https://h"));
    let ms = group.members.unwrap();
    assert_eq!(ms[0].ref_url, Some("https://h/api/v1/scim/v2/Users/u-9".to_string()));
    assert_eq!(ms[0].display, None);
}

#[test]
fn scim_user_round_trip_to_account() {
    let user = make_test_user();
    let scim = ScimUser::from_user(&user, "id", stamp(), stamp(), None);
    let back = scim.to_user_create().unwrap();
    assert_eq!(back.username, "john.doe");
    assert_eq!(back.display_name, "John Doe");
    assert_eq!(back.email, Some("john@example.com".to_string()));
    assert_eq!(back.role, UserRole::Editor);
    assert_eq!(back.is_active, Some(true));
}

#[test]
fn test_create_plugin_body_deserialization() {
    let body = CreatePluginBody {
        name: "test-plugin".to_string(),
        description: Some("A test plugin".to_string()),
        version: "0.1.0".to_string(),
        author: Some("Test Author".to_string()),
        homepage: None,
        license: Some("MIT".to_string()),
        extension_points: Some(vec!["editor:command".to_string()]),
        manifest: None,
        runtime_type: Some("wasm".to_string()),
        entry_point: None,
        enabled: Some(false),
    };
    assert_eq!(body.name, "test-plugin");
    assert_eq!(body.version, "0.1.0");
    assert_eq!(body.extension_points.as_ref().unwrap().len(), 1);
}

#[test]
fn test_init_repository_request_construction() {
    let req = InitRepositoryRequest {
        name: "test-repo".to_string(),
        description: Some("Test repository".to_string()),
        metadata: None,
        owner_id: None,
    };

    assert_eq!(req.name, "test-repo");
    assert_eq!(req.description, Some("Test repository".to_string()));
}

#[test]
fn test_commit_request_construction() {
    let req = CommitRequest {
        message: "fix: typo".to_string(),
        metadata: None,
    };

    assert_eq!(req.message, "fix: typo");
}

#[test]
fn test_create_session_request_construction() {
    let req = CreateSessionRequest {
        user_id: "user-1".to_string(),
        metadata: None,
    };

    assert_eq!(req.user_id, "user-1");
}

#[test]
fn test_session_response_construction() {
    let response = SessionResponse {
        id: "sess-123".to_string(),
        user_id: "user-1".to_string(),
        metadata: Some(JsonValue::Object(vec![(
            "device".to_string(),
            JsonValue::String("web".to_string()),
        )])),
        created_at: "2024-01-01T00:00:00+00:00".to_string(),
    };

    assert_eq!(response.id, "sess-123");
    assert_eq!(response.user_id, "user-1");
    assert!(response.metadata.is_some());
}

#[test]
fn repository_defaults() {
    assert_eq!(repository_slug("My Team Docs"), "my-team-docs");
    assert_eq!(repository_slug("x"), "x");
    assert_eq!(repository_owner(None), "default_user");
    assert_eq!(repository_owner(Some("u-1")), "u-1");
    assert_eq!(push_branch(None), "main");
    assert_eq!(push_branch(Some("dev")), "dev");
}

#[test]
fn test_scim_list_response_format() {
    let user = make_test_user();
    let scim = ScimUser::from_user(&user, "user-1", stamp(), stamp(), None);
    let list = ScimListResponse {
        schemas: vec!["urn:ietf:params:scim:api:messages:2.0:ListResponse".to_string()],
        total_results: 1,
        start_index: Some(1),
        items_per_page: Some(100),
        resources: vec![scim],
    };

    assert_eq!(list.schemas, vec!["urn:ietf:params:scim:api:messages:2.0:ListResponse".to_string()]);
    assert_eq!(list.total_results, 1);
    assert_eq!(list.start_index, Some(1));
    assert_eq!(list.items_per_page, Some(100));
    assert_eq!(list.resources.len(), 1);
}

#[test]
fn test_scim_error_format() {
    let err = ScimError {
        schemas: vec!["urn:ietf:params:scim:api:messages:2.0:Error".to_string()],
        detail: "User not found".to_string(),
        status: "404".to_string(),
    };
    let made = scim_error(404, "User not found");
    assert_eq!(made.schemas, err.schemas);
    assert_eq!(made.detail, err.detail);
    assert_eq!(made.status, err.status);
}

#[test]
fn scim_listing_reports_what_it_carries() {
    let list = scim_list(vec![1, 2, 3], 10, Some(4));
    assert_eq!(list.schemas, vec!["urn:ietf:params:scim:api:messages:2.0:ListResponse".to_string()]);
    assert_eq!(list.total_results, 10);
    assert_eq!(list.start_index, Some(4));
    assert_eq!(list.items_per_page, Some(3));
    assert_eq!(list.resources, vec![1, 2, 3]);
}

#[test]
fn scim_group_filters() {
    assert_eq!(
        parse_group_filter(r#"  displayName eq "Engineering" "#),
        Ok(GroupFilter::NameEquals("Engineering".to_string()))
    );
    assert_eq!(
        parse_group_filter(r#"displayName co "eng""#),
        Ok(GroupFilter::NameContains("eng".to_string()))
    );
    assert_eq!(
        parse_group_filter("externalId eq 1"),
        Err("Unsupported SCIM filter: externalId eq 1".to_string())
    );
    assert!(group_matches(&GroupFilter::NameEquals("engineering".to_string()), "Engineering"));
    assert!(!group_matches(&GroupFilter::NameEquals("eng".to_string()), "Engineering"));
    assert!(group_matches(&GroupFilter::NameContains("NEER".to_string()), "Engineering"));
    assert!(!group_matches(&GroupFilter::NameContains("sales".to_string()), "Engineering"));
}

#[test]
fn scim_group_pages() {
    let groups: Vec<u32> = (1..=250).collect();
    assert_eq!(groups_page(groups.clone(), None, None), (1..=100).collect::<Vec<u32>>());
    assert_eq!(groups_page(groups.clone(), Some(201), Some(500)), (201..=250).collect::<Vec<u32>>());
    assert_eq!(groups_page(groups.clone(), Some(0), Some(2)), vec![1, 2]);
    assert!(groups_page(groups.clone(), Some(251), None).is_empty());
    assert!(groups_page(groups, Some(5), Some(0)).is_empty());
}

#[test]
fn scim_service_description() {
    let c = service_provider_config();
    assert_eq!(c.schemas, vec!["urn:ietf:params:scim:schemas:core:2.0:ServiceProviderConfig".to_string()]);
    assert!(c.patch.supported);
    assert!(!c.bulk.supported);
    assert_eq!(c.filter.max_results, Some(100));
    assert_eq!(c.authentication_schemes.len(), 1);
    assert_eq!(c.authentication_schemes[0].scheme_type, "oauthbearertoken");
    assert!(c.authentication_schemes[0].primary);
}

#[test]
fn test_v2_ok_envelope() {
    let data = JsonValue::Object(vec![("foo".to_string(), JsonValue::String("bar".to_string()))]);
    let body = v2_ok(data, "2024-05-01T12:00:00+00:00".to_string());
    assert_eq!(body.get("data").unwrap().get("foo").unwrap().as_str(), Some("bar"));
    assert_eq!(body.get("meta").unwrap().get("version").unwrap().as_str(), Some("2.0"));
    assert!(body.get("meta").unwrap().get("timestamp").unwrap().as_str().is_some());
}

#[test]
fn test_v2_error_envelope() {
    let (status, body) = v2_error("NOT_FOUND", "thing not found", 404);
    assert_eq!(status, 404);
    assert_eq!(body.get("error").unwrap().get("code").unwrap().as_str(), Some("NOT_FOUND"));
    assert_eq!(body.get("error").unwrap().get("message").unwrap().as_str(), Some("thing not found"));
}

#[test]
fn test_v2_health_response() {
    let body = v2_health("2024-05-01T12:00:00+00:00".to_string());
    let data = body.get("data").unwrap();
    assert_eq!(data.get("status").unwrap().as_str(), Some("ok"));
    assert_eq!(data.get("version").unwrap().as_str(), Some("2.0.0"));
    assert_eq!(data.get("message").unwrap().as_str(), Some("Tachyon API v2"));
    assert_eq!(body.get("meta").unwrap().get("version").unwrap().as_str(), Some("2.0"));
    assert!(body.get("meta").unwrap().get("timestamp").unwrap().as_str().is_some());
}
