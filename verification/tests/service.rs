//! The session service's decisions: validation, the admin-enrollment
//! check, role determination, login outcomes and the smaller helpers.

use auth_core::dto::{LoginRequest, RegisterRequest, UserUpdate};
use auth_core::errors::AppError;
use auth_core::jwt::verify_token;
use auth_core::session::{
    admin_code_matches, create_failure, change_password_outcome, determine_role,
    find_user_mail_outcome, find_user_outcome, login_outcome, pagination_bounds,
    prepare_registration, validate_login, validate_register, validate_user_update,
};
use auth_core::password::hash_password;
use auth_core::user::{User, UserRole};

fn register_request() -> RegisterRequest {
    RegisterRequest {
        username: "alice".to_string(),
        full_name: "Alice Example".to_string(),
        email: "alice@x.com".to_string(),
        password: "password123".to_string(),
        phone_number: None,
        admin_code: None,
    }
}

fn account(id: i32, username: &str, email: &str, password: &str, role: UserRole) -> User {
    User {
        id,
        username: username.to_string(),
        full_name: "Someone".to_string(),
        email: email.to_string(),
        password_hash: hash_password(password).unwrap(),
        phone_number: None,
        user_role: role,
        subscription_expries: None,
        email_verified: None,
        phone_verified: None,
        last_login: None,
        is_active: Some(true),
        created_at: Some(0),
        updated_at: Some(0),
    }
}

#[test]
fn registration_validation_accepts_and_rejects() {
    assert!(validate_register(&register_request()).is_ok());

    let mut short_name = register_request();
    short_name.username = "al".to_string();
    assert!(matches!(
        validate_register(&short_name),
        Err(AppError::ValidationError(_))
    ));

    let mut bad_email = register_request();
    bad_email.email = "not-an-email".to_string();
    assert!(validate_register(&bad_email).is_err());

    let mut short_password = register_request();
    short_password.password = "short".to_string();
    assert!(validate_register(&short_password).is_err());

    let mut bad_phone = register_request();
    bad_phone.phone_number = Some("12345".to_string());
    assert!(validate_register(&bad_phone).is_err());

    let mut ok_phone = register_request();
    ok_phone.phone_number = Some("5551234567".to_string());
    assert!(validate_register(&ok_phone).is_ok());
}

#[test]
fn login_validation_requires_both_fields() {
    let good = LoginRequest { email: "alice".to_string(), password: "p".to_string() };
    assert!(validate_login(&good).is_ok());
    let no_name = LoginRequest { email: "".to_string(), password: "p".to_string() };
    assert!(validate_login(&no_name).is_err());
    let no_password = LoginRequest { email: "alice".to_string(), password: "".to_string() };
    assert!(validate_login(&no_password).is_err());
}

#[test]
fn update_validation_checks_only_given_fields() {
    let empty = UserUpdate {
        id: 1,
        username: None,
        full_name: None,
        email: None,
        phone_number: None,
    };
    assert!(validate_user_update(&empty).is_ok());
    let bad = UserUpdate {
        id: 1,
        username: Some("x".to_string()),
        full_name: None,
        email: None,
        phone_number: None,
    };
    assert!(validate_user_update(&bad).is_err());
}

#[test]
fn admin_code_comparison_is_exact_and_length_guarded() {
    assert!(admin_code_matches("sesame", "sesame"));
    assert!(!admin_code_matches("sesame", "sesamE"));
    // Differing lengths are rejected before any byte comparison.
    assert!(!admin_code_matches("sesam", "sesame"));
    assert!(!admin_code_matches("", "sesame"));
    assert!(admin_code_matches("", ""));
}

#[test]
fn role_determination_follows_the_enrollment_code() {
    assert!(matches!(determine_role(&None, "sesame"), Ok(UserRole::User)));
    assert!(matches!(
        determine_role(&Some("sesame".to_string()), "sesame"),
        Ok(UserRole::Admin)
    ));
    let denied = determine_role(&Some("wrong".to_string()), "sesame").unwrap_err();
    assert_eq!(denied.status_code(), 401);
}

#[test]
fn registration_builds_the_record_or_refuses() {
    let user = prepare_registration(register_request(), "sesame", 1_700_000_000).unwrap();
    assert_eq!(user.username, "alice");
    assert_eq!(user.email, "alice@x.com");
    assert_eq!(user.user_role, UserRole::User);
    assert_eq!(user.is_active, Some(true));
    assert_eq!(user.created_at, Some(1_700_000_000));
    assert!(auth_core::password::verify_password("password123", &user.password_hash).unwrap());

    let mut with_code = register_request();
    with_code.admin_code = Some("sesame".to_string());
    let admin = prepare_registration(with_code, "sesame", 0).unwrap();
    assert_eq!(admin.user_role, UserRole::Admin);

    let mut with_wrong_code = register_request();
    with_wrong_code.admin_code = Some("open".to_string());
    let refused = prepare_registration(with_wrong_code, "sesame", 0).unwrap_err();
    assert_eq!(refused.status_code(), 401);

    let mut invalid = register_request();
    invalid.password = "short".to_string();
    let rejected = prepare_registration(invalid, "sesame", 0).unwrap_err();
    assert_eq!(rejected.status_code(), 400);
}

#[test]
fn insert_failures_map_to_conflict_or_store_error() {
    let conflict = create_failure(true, "duplicate key value");
    assert_eq!(conflict.status_code(), 409);
    assert_eq!(conflict.message(), "Conflict: Username or email already exist.");
    let other = create_failure(false, "connection reset");
    assert_eq!(other.status_code(), 500);
}

#[test]
fn login_collapses_missing_user_and_wrong_password() {
    let now: u64 = 1_700_000_000;
    let missing = login_outcome(None, "password123", "secret", now).unwrap_err();
    let alice = account(1, "alice", "alice@x.com", "password123", UserRole::User);
    let wrong = login_outcome(Some(alice), "password124", "secret", now).unwrap_err();
    assert_eq!(missing.status_code(), 401);
    assert_eq!(wrong.status_code(), 401);
    // The two failures carry the same message, so the caller cannot tell
    // a lookup miss from a password mismatch.
    assert_eq!(missing.message(), wrong.message());
}

#[test]
fn login_issues_a_verifiable_token_with_the_role_snapshot() {
    let now: u64 = 1_700_000_000;
    let admin = account(9, "root", "root@x.com", "hunter2-hunter2", UserRole::Admin);
    let response = login_outcome(Some(admin), "hunter2-hunter2", "secret", now).unwrap();
    assert_eq!(response.user_id, 9);
    assert_eq!(response.username, "root");
    assert_eq!(response.role, "admin");
    let claims = verify_token(&response.token, "secret", now).unwrap();
    assert_eq!(claims.user_id, 9);
    assert_eq!(claims.role, "admin");
    assert_eq!(claims.exp, now + 86400);
}

#[test]
fn lookup_outcomes_name_what_was_missed() {
    let err = find_user_outcome(None, -12).unwrap_err();
    assert_eq!(err.status_code(), 404);
    assert_eq!(err.message(), "Not Found: User with id -12 not found");
    let err = find_user_mail_outcome(None, "bob@x.com").unwrap_err();
    assert_eq!(err.message(), "Not Found: User with email bob@x.com not found");
    let alice = account(3, "alice", "alice@x.com", "password123", UserRole::User);
    assert_eq!(find_user_outcome(Some(alice), 3).unwrap().id, 3);
}

#[test]
fn password_change_requires_the_current_password() {
    let alice = account(5, "alice", "alice@x.com", "password123", UserRole::User);
    let missing = change_password_outcome(None, 5, "password123", "newpassword1").unwrap_err();
    assert_eq!(missing.status_code(), 404);
    let wrong =
        change_password_outcome(Some(alice), 5, "password124", "newpassword1").unwrap_err();
    assert_eq!(wrong.status_code(), 401);
    let bob = account(6, "bob", "bob@x.com", "password123", UserRole::User);
    let new_hash = change_password_outcome(Some(bob), 6, "password123", "newpassword1").unwrap();
    assert!(auth_core::password::verify_password("newpassword1", &new_hash).unwrap());
}

#[test]
fn pagination_turns_pages_into_row_windows() {
    assert_eq!(pagination_bounds(0, 10), (10, 0));
    assert_eq!(pagination_bounds(3, 25), (25, 75));
}

#[test]
fn defaults_match_the_documented_values() {
    assert_eq!(auth_core::dto::default_days(), 7);
    assert_eq!(auth_core::dto::default_limit(), 10);
    assert_eq!(auth_core::dto::default_page(), 0);
    assert_eq!(auth_core::dto::default_page_size(), 10);
}

#[test]
fn role_names_round_trip_and_unknown_names_demote() {
    assert_eq!(UserRole::from_string(&"admin".to_string()), UserRole::Admin);
    assert_eq!(UserRole::from_string(&"user".to_string()), UserRole::User);
    assert_eq!(UserRole::from_string(&"anything-else".to_string()), UserRole::User);
    assert_eq!(UserRole::Admin.as_str(), "admin");
    assert_eq!(UserRole::User.as_str(), "user");
    assert_eq!(UserRole::Guest.as_str(), "guest");
}

#[test]
fn claims_from_user_open_an_hour_long_window() {
    let u = account(8, "carol", "carol@x.com", "password123", UserRole::Guest);
    let claims = auth_core::dto::Claims::from_user(&u, 1000);
    assert_eq!(claims.user_id, 8);
    assert_eq!(claims.iat, 1000);
    assert_eq!(claims.exp, 4600);
    assert_eq!(claims.role, "guest");
}

#[test]
fn user_summaries_drop_the_password_hash() {
    let u = account(2, "dave", "dave@x.com", "password123", UserRole::User);
    let summary = auth_core::dto::UserResponse::from_user(u);
    assert_eq!(summary.id, 2);
    assert_eq!(summary.username, "dave");
    assert_eq!(summary.role, "user");
}

#[test]
fn fresh_identifiers_are_produced() {
    let _id: i32 = auth_core::ids::convert_i32();
}
