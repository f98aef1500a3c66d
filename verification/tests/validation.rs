use tachyon_server::validation::common::ValidationError;
use tachyon_server::validation::search::{
    ValidatedContentType, ValidatedDateFilter, ValidatedPage, ValidatedPagination,
    ValidatedSearchFilters, ValidatedSearchQuery, ValidatedSortField, ValidatedTagFilter,
};
use tachyon_server::validation::user::{
    UserRoleValue, ValidatedApiKey, ValidatedDisplayName, ValidatedEmail, ValidatedPassword,
    ValidatedUserId, ValidatedUsername,
};

#[test]
fn test_validated_search_query() {
    assert!(ValidatedSearchQuery::new("hello world").is_ok());
    assert!(ValidatedSearchQuery::new("rust programming").is_ok());
    assert!(ValidatedSearchQuery::new("").is_err());
    assert!(ValidatedSearchQuery::new("<script>alert('xss')</script>").is_err());
    assert!(ValidatedSearchQuery::new("'; DROP TABLE users;--").is_err());
}

#[test]
fn test_validated_pagination() {
    let pagination = ValidatedPagination::new(Some(2), Some(50));
    assert_eq!(pagination.page(), 2);
    assert_eq!(pagination.page_size(), 50);
    assert_eq!(pagination.offset(), 50);

    let pagination = ValidatedPagination::new(None, None);
    assert_eq!(pagination.page(), 1);
    assert_eq!(pagination.page_size(), 20);

    let pagination = ValidatedPagination::new(Some(0), Some(200));
    assert_eq!(pagination.page(), 1);
    assert_eq!(pagination.page_size(), 100);
}

#[test]
fn test_validated_tag_filter() {
    let filter = ValidatedTagFilter::new(Some("rust, web, api")).unwrap();
    assert_eq!(filter.tags(), &["rust", "web", "api"]);

    let filter = ValidatedTagFilter::new(None).unwrap();
    assert!(filter.is_empty());
}

#[test]
fn test_sql_injection_prevention() {
    assert!(ValidatedSearchQuery::new("'; DROP TABLE users;--").is_err());
    assert!(ValidatedSearchQuery::new("1' OR '1'='1").is_err());
    assert!(ValidatedSearchQuery::new("admin'--").is_err());
}

#[test]
fn test_validated_username() {
    assert!(ValidatedUsername::new("john_doe").is_ok());
    assert!(ValidatedUsername::new("johndoe123").is_ok());
    assert!(ValidatedUsername::new("ab").is_err());
    assert!(ValidatedUsername::new("123user").is_err());
    assert!(ValidatedUsername::new("admin").is_err());
    assert!(ValidatedUsername::new("user@name").is_err());
}

#[test]
fn test_validated_email() {
    assert!(ValidatedEmail::new("user@example.com").is_ok());
    assert!(ValidatedEmail::new("user.name+tag@example.org").is_ok());
    assert!(ValidatedEmail::new("invalid").is_err());
    assert!(ValidatedEmail::new("user@tempmail.com").is_err());
}

#[test]
fn test_validated_password() {
    assert!(ValidatedPassword::new("Password123!").is_ok());
    assert!(ValidatedPassword::new("Short1!").is_err());
    assert!(ValidatedPassword::new("password123").is_err());
    assert!(ValidatedPassword::new("PASSWORD123!").is_ok());
    assert!(ValidatedPassword::new("Password1!").is_err());
    assert!(ValidatedPassword::new("password").is_err());
    assert!(ValidatedPassword::new("PASSWORD").is_err());
}

#[test]
fn test_validated_display_name() {
    assert!(ValidatedDisplayName::new("John Doe").is_ok());
    assert!(ValidatedDisplayName::new("John<script>").is_err());
    assert!(ValidatedDisplayName::new("").is_err());
}

#[test]
fn username_is_trimmed_and_errors_are_specific() {
    assert_eq!(ValidatedUsername::new("  alice_1 ").unwrap().as_str(), "alice_1");
    assert!(matches!(ValidatedUsername::new("   "), Err(ValidationError::Required)));
    assert!(matches!(ValidatedUsername::new("ab"), Err(ValidationError::TooShort { min: 3 })));
    let long = "a".repeat(51);
    assert!(matches!(ValidatedUsername::new(&long), Err(ValidationError::TooLong { max: 50 })));
    match ValidatedUsername::new("Admin") {
        Err(ValidationError::ForbiddenContent { reason }) => {
            assert_eq!(reason, "This username is reserved")
        }
        _ => panic!("reserved name accepted"),
    }
    match ValidatedUsername::new("9lives") {
        Err(ValidationError::InvalidFormat { message }) => {
            assert_eq!(message, "Username cannot start with a number")
        }
        _ => panic!("leading digit accepted"),
    }
}

#[test]
fn display_name_whitespace_is_normalized() {
    let name = ValidatedDisplayName::new("  John \t  Doe ").unwrap();
    assert_eq!(name.into_inner(), "John Doe");
    assert!(matches!(
        ValidatedDisplayName::new("x onload=y"),
        Err(ValidationError::ForbiddenContent { .. })
    ));
}

#[test]
fn email_is_lowercased_and_shape_checked() {
    assert_eq!(ValidatedEmail::new("  User@Example.COM ").unwrap().as_str(), "user@example.com");
    assert!(ValidatedEmail::new("a@b@c.com").is_err());
    assert!(ValidatedEmail::new("@example.com").is_err());
    assert!(ValidatedEmail::new("user@example").is_err());
    assert!(ValidatedEmail::new("user@.example.com").is_err());
    assert!(ValidatedEmail::new("user@example.com.").is_err());
    assert!(matches!(
        ValidatedEmail::new("x@mailinator.com"),
        Err(ValidationError::ForbiddenContent { .. })
    ));
}

#[test]
fn password_errors() {
    assert!(matches!(ValidatedPassword::new(""), Err(ValidationError::Required)));
    assert!(matches!(ValidatedPassword::new("Ab1!"), Err(ValidationError::TooShort { min: 8 })));
    assert!(matches!(
        ValidatedPassword::new("abcdefgh"),
        Err(ValidationError::InvalidFormat { .. })
    ));
    assert_eq!(ValidatedPassword::new("Abcdefg1").unwrap().into_inner(), "Abcdefg1");
}

#[test]
fn user_id_and_api_key() {
    let id = ValidatedUserId::new(" 123E4567-E89B-12D3-A456-426614174000 ").unwrap();
    assert_eq!(id.as_str(), "123e4567-e89b-12d3-a456-426614174000");
    assert!(ValidatedUserId::new("not-a-uuid").is_err());
    assert!(matches!(ValidatedUserId::new(""), Err(ValidationError::Required)));
    let key = ValidatedApiKey::new("abcdefghij_KLMNOPQRS-1").unwrap();
    assert_eq!(key.as_str(), "abcdefghij_KLMNOPQRS-1");
    assert!(matches!(ValidatedApiKey::new("short"), Err(ValidationError::TooShort { min: 20 })));
    assert!(ValidatedApiKey::new("abcdefghij klmnopqrst").is_err());
}

#[test]
fn roles_round_trip() {
    assert_eq!(UserRoleValue::from_str("ADMIN").unwrap(), UserRoleValue::Admin);
    assert_eq!(UserRoleValue::from_str("writer").unwrap().as_str(), "writer");
    assert_eq!(UserRoleValue::Reader.as_str(), "reader");
    assert_eq!(UserRoleValue::from_str("Editor").unwrap().as_str(), "editor");
    assert!(UserRoleValue::from_str("owner").is_err());
    for r in [UserRoleValue::Admin, UserRoleValue::Editor, UserRoleValue::Writer, UserRoleValue::Reader] {
        assert_eq!(UserRoleValue::from_str(r.as_str()).unwrap(), r);
    }
}

#[test]
fn search_query_sanitizes_and_rejects() {
    let q = ValidatedSearchQuery::new("  rust\u{200b} web  ").unwrap();
    assert_eq!(q.into_inner(), "rust web");
    assert!(matches!(
        ValidatedSearchQuery::new("go to javascript:alert"),
        Err(ValidationError::ForbiddenContent { .. })
    ));
    assert!(matches!(
        ValidatedSearchQuery::new("a\u{7}b"),
        Err(ValidationError::ContainsControlChars)
    ));
    assert!(ValidatedSearchQuery::new_optional(None).unwrap().is_none());
    assert!(ValidatedSearchQuery::new_optional(Some("   ")).unwrap().is_none());
    assert_eq!(
        ValidatedSearchQuery::new_optional(Some(" hi ")).unwrap().unwrap().as_str(),
        "hi"
    );
}

#[test]
fn page_offsets() {
    assert_eq!(ValidatedPage::new(Some(3)).offset(10), 20);
    assert_eq!(ValidatedPage::new(None).offset(10), 0);
    assert_eq!(ValidatedPagination::new(Some(4), Some(0)).limit(), 1);
}

#[test]
fn tag_filter_limits() {
    let filter = ValidatedTagFilter::new(Some(" , a,, b ,")).unwrap();
    assert_eq!(filter.tags(), &["a", "b"]);
    let many: Vec<String> = (0..21).map(|i| format!("t{}", i)).collect();
    assert!(matches!(
        ValidatedTagFilter::new(Some(&many.join(","))),
        Err(ValidationError::TooLong { max: 20 })
    ));
    assert!(matches!(
        ValidatedTagFilter::new(Some("ok,<b>")),
        Err(ValidationError::ForbiddenContent { .. })
    ));
}

#[test]
fn content_type_sort_and_dates() {
    assert_eq!(ValidatedContentType::new(Some(" Markdown ")).unwrap().unwrap().as_str(), "markdown");
    assert!(ValidatedContentType::new(Some("pdf")).is_err());
    assert!(ValidatedContentType::new(None).unwrap().is_none());
    let sort = ValidatedSortField::new(Some("Created_At"), true).unwrap().unwrap();
    assert_eq!(sort.field(), "created_at");
    assert!(sort.is_descending());
    assert!(ValidatedSortField::new(Some("password"), false).is_err());
    let d = ValidatedDateFilter::new(Some("2024-01-02T03:04:05Z")).unwrap().unwrap();
    assert_eq!(d.date().seconds, 1704164645);
    assert_eq!(d.date().nanos, 0);
    assert!(ValidatedDateFilter::new(Some("yesterday")).is_err());
    assert!(ValidatedDateFilter::new(Some("  ")).unwrap().is_none());
}

#[test]
fn search_filters_validate() {
    let f = ValidatedSearchFilters::validate(
        Some("rust"),
        Some(2),
        Some(10),
        Some("text"),
        Some(" Draft "),
        None,
        Some("  p1 "),
        Some("   "),
        Some("a,b"),
        None,
        None,
        Some("title"),
        false,
    )
    .unwrap();
    assert_eq!(f.query.unwrap().as_str(), "rust");
    assert_eq!(f.pagination.offset(), 10);
    assert_eq!(f.status.as_deref(), Some("draft"));
    assert_eq!(f.project_id.as_deref(), Some("p1"));
    assert!(f.author_id.is_none());
    assert_eq!(f.tags.tags(), &["a", "b"]);
    let err = ValidatedSearchFilters::validate(
        None, None, None, None, Some("bogus"), None, None, None, None, None, None, None, false,
    );
    match err {
        Err(ValidationError::InvalidFormat { message }) => {
            assert_eq!(message, "Status must be one of: draft, published, archived, deleted")
        }
        _ => panic!("bad status accepted"),
    }
}

#[test]
fn search_queries_ignore_surrounding_space() {
    for q in ["  rust  ", "\t<script>alert(1)</script> ", "   ", " a' or 1=1 ", "plain"] {
        match (ValidatedSearchQuery::new(q), ValidatedSearchQuery::new(q.trim())) {
            (Ok(a), Ok(b)) => assert_eq!(a.as_str(), b.as_str()),
            (Err(a), Err(b)) => assert_eq!(format!("{:?}", a), format!("{:?}", b)),
            _ => panic!("outcomes differ for {:?}", q),
        }
    }
}
