use ouroboros_api::api::v1::users::{
    classify_insert_error, deletion_result, found_or_not_found, insert_error, like_pattern,
    listing_offset_fits,
    parse_user_id, plan_user_listing, user_id_from_parse, validate_user_input,
    validate_user_update, UpdateUserRequest, UsersQuery,
};
use ouroboros_api::error::AppError;
use ouroboros_api::text::trim_str;

fn validation_message(r: Result<(), AppError>) -> Option<String> {
    match r {
        Err(AppError::Validation(m)) => Some(m),
        _ => None,
    }
}

#[test]
fn test_user_validation_rules_fr11() {
    // Empty name rejected
    assert!(validate_user_input("", "test@example.com").is_err());
    assert!(validate_user_input("   ", "test@example.com").is_err());

    // Malformed email rejected
    assert!(validate_user_input("Abhishek", "bademail").is_err());
    assert!(validate_user_input("Abhishek", "@example.com").is_err());
    assert!(validate_user_input("Abhishek", "test@").is_err());
    assert!(validate_user_input("Abhishek", "").is_err());

    // Valid inputs accepted
    assert!(validate_user_input("Abhishek", "abhishek@example.com").is_ok());
}

#[test]
fn validation_reports_first_broken_rule() {
    assert_eq!(
        validation_message(validate_user_input(" \t ", "bad")).as_deref(),
        Some("name cannot be empty")
    );
    assert_eq!(
        validation_message(validate_user_input("Ann", "bad")).as_deref(),
        Some("email must contain '@' and be properly formatted")
    );
    let long_email = format!("{}@example.com", "a".repeat(250));
    assert_eq!(
        validation_message(validate_user_input("Ann", &long_email)).as_deref(),
        Some("email must not exceed 255 characters")
    );
}

#[test]
fn name_length_counts_utf8_bytes_after_trimming() {
    let exactly = "a".repeat(255);
    assert!(validate_user_input(&format!("  {}  ", exactly), "a@b").is_ok());
    let over = "a".repeat(256);
    assert_eq!(
        validation_message(validate_user_input(&over, "a@b")).as_deref(),
        Some("name must not exceed 255 characters")
    );
    // 128 two-byte characters: 256 bytes, only 128 characters.
    let wide = "é".repeat(128);
    assert!(validate_user_input(&wide, "a@b").is_err());
    let wide_ok = "é".repeat(127);
    assert!(validate_user_input(&wide_ok, "a@b").is_ok());
}

#[test]
fn unicode_whitespace_is_trimmed() {
    assert_eq!(trim_str("\u{3000}\u{a0} x y \u{2029}\n"), "x y");
    assert_eq!(trim_str("   "), "");
    assert!(validate_user_input("\u{2003}", "a@b").is_err());
    assert!(validate_user_input("Zoë", " \u{85}z@q ").is_ok());
}

#[test]
fn update_checks_only_present_fields() {
    let none = UpdateUserRequest { name: None, email: None };
    assert!(validate_user_update(&none).is_ok());
    let bad_email = UpdateUserRequest { name: None, email: Some("nope@".to_string()) };
    assert_eq!(
        validation_message(validate_user_update(&bad_email)).as_deref(),
        Some("email must contain '@'")
    );
    let bad_name = UpdateUserRequest { name: Some(" ".to_string()), email: Some("nope".to_string()) };
    assert_eq!(
        validation_message(validate_user_update(&bad_name)).as_deref(),
        Some("name cannot be empty")
    );
    let good = UpdateUserRequest { name: Some("Bo".to_string()), email: Some("b@o".to_string()) };
    assert!(validate_user_update(&good).is_ok());
}

#[test]
fn listing_pages_and_patterns() {
    let q = UsersQuery { page: None, page_size: None, email: None, name: None, search: None };
    let p = plan_user_listing(&q);
    assert_eq!((p.page, p.page_size, p.offset), (1, 20, 0));
    assert!(p.email_pattern.is_none() && p.name_pattern.is_none() && p.search_pattern.is_none());

    let q = UsersQuery {
        page: Some(3),
        page_size: Some(500),
        email: Some("  gmail ".to_string()),
        name: None,
        search: Some("bob".to_string()),
    };
    let p = plan_user_listing(&q);
    assert_eq!((p.page, p.page_size, p.offset), (3, 100, 200));
    assert_eq!(p.email_pattern.as_deref(), Some("%gmail%"));
    assert_eq!(p.search_pattern.as_deref(), Some("%bob%"));

    let q = UsersQuery { page: Some(-4), page_size: Some(0), email: None, name: None, search: None };
    let p = plan_user_listing(&q);
    assert_eq!((p.page, p.page_size, p.offset), (1, 1, 0));
    assert_eq!(like_pattern(""), "%%");
}

#[test]
fn user_ids_parse_as_uuids() {
    let id = parse_user_id("67e55044-10b1-426f-9247-bb680e5fe0c8").ok();
    assert_eq!(id, Some(0x67e55044_10b1_426f_9247_bb680e5fe0c8u128));
    let simple = parse_user_id("67e5504410b1426f9247bb680e5fe0c8").ok();
    assert_eq!(simple, id);
    match parse_user_id("not-a-uuid") {
        Err(AppError::Validation(m)) => assert_eq!(m, "invalid UUID format"),
        _ => panic!("expected a validation error"),
    }
    assert!(user_id_from_parse(None).is_err());
    assert_eq!(user_id_from_parse(Some(7)).ok(), Some(7));
}

#[test]
fn lookups_and_deletes_report_not_found() {
    assert!(matches!(found_or_not_found::<u8>(None), Err(AppError::NotFound)));
    assert_eq!(found_or_not_found(Some(5u8)).ok(), Some(5));
    assert!(matches!(deletion_result(0), Err(AppError::NotFound)));
    assert!(deletion_result(1).is_ok());
}

#[test]
fn insert_failures_are_classified() {
    match classify_insert_error(sqlx::Error::RowNotFound, true) {
        AppError::Conflict(m) => assert_eq!(m, "email already exists"),
        _ => panic!("expected a conflict"),
    }
    assert!(matches!(
        classify_insert_error(sqlx::Error::RowNotFound, false),
        AppError::Database(_)
    ));
    assert!(matches!(insert_error(sqlx::Error::RowNotFound), AppError::Database(_)));
}

#[test]
fn listing_offset_must_fit() {
    let q = |page: Option<i64>, size: Option<i64>| UsersQuery {
        page,
        page_size: size,
        email: None,
        name: None,
        search: None,
    };
    assert!(listing_offset_fits(&q(None, None)));
    assert!(listing_offset_fits(&q(Some(i64::MAX), Some(1))));
    assert!(!listing_offset_fits(&q(Some(i64::MAX), Some(2))));
    assert!(!listing_offset_fits(&q(Some(i64::MAX / 100 + 2), Some(100))));
    assert!(listing_offset_fits(&q(Some(i64::MAX / 100 + 1), Some(100))));
    let p = plan_user_listing(&q(Some(i64::MAX / 100 + 1), Some(100)));
    assert_eq!(p.offset, (i64::MAX / 100) * 100);
}

#[test]
fn trimming_twice_changes_nothing() {
    for s in ["  a b  ", "\u{3000}x", "", " \t\n", "plain"] {
        let once = trim_str(s);
        assert_eq!(trim_str(once), once);
    }
    assert_eq!(
        validate_user_input(trim_str("  Ann "), trim_str(" a@b ")).is_ok(),
        validate_user_input("  Ann ", " a@b ").is_ok()
    );
}

#[test]
fn whitespace_padding_never_changes_the_verdict() {
    let cases = [
        ("Abhishek", "abhishek@example.com"),
        ("", "test@example.com"),
        ("Abhishek", "@example.com"),
        ("Abhishek", "test@"),
        ("Abhishek", "bademail"),
    ];
    for (name, email) in cases {
        let plain = validation_message(validate_user_input(name, email));
        let padded = validation_message(validate_user_input(
            &format!(" \t{}\u{3000} ", name),
            &format!("\n{} ", email),
        ));
        assert_eq!(plain, padded);
        assert_eq!(validate_user_input(name, email).is_ok(), validate_user_input(&format!("  {}  ", name), &format!(" {} ", email)).is_ok());
    }
}
