//! The request authenticator and the revocation decisions.

use auth_core::authn::{authenticate, get_token_from_header, require_admin, require_self_or_admin};
use auth_core::errors::AppError;
use auth_core::jwt::create_jwt;
use auth_core::revocation::{blacklist_entry, logout_outcome, logout_plan};
use auth_core::dto::Claims;

#[test]
fn bearer_extraction_strips_the_prefix() {
    assert_eq!(get_token_from_header(Some("Bearer abc.def.ghi")).unwrap(), "abc.def.ghi");
    assert_eq!(get_token_from_header(Some("Bearer ")).unwrap(), "");
    let missing = get_token_from_header(None).unwrap_err();
    let malformed = get_token_from_header(Some("Basic abc")).unwrap_err();
    let lowercase = get_token_from_header(Some("bearer abc")).unwrap_err();
    assert_eq!(missing.status_code(), 401);
    // Absence and a malformed prefix are indistinguishable to the caller.
    assert_eq!(missing.message(), malformed.message());
    assert_eq!(missing.message(), lowercase.message());
}

#[test]
fn authentication_admits_a_valid_unrevoked_token() {
    let now: u64 = 1_700_000_000;
    let token = create_jwt(21, "user".to_string(), "secret", now).unwrap();
    let identity = authenticate(&token, "secret", now, Ok(false)).unwrap();
    assert_eq!(identity.user_id, 21);
    assert_eq!(identity.role, "user");
    assert_eq!(identity.token, token);
    assert_eq!(identity.claims.exp, now + 86400);
}

#[test]
fn revocation_takes_precedence_over_validity() {
    let now: u64 = 1_700_000_000;
    let token = create_jwt(21, "user".to_string(), "secret", now).unwrap();
    // The token is structurally valid and unexpired, yet it is rejected.
    let rejected = authenticate(&token, "secret", now, Ok(true)).unwrap_err();
    assert_eq!(rejected.status_code(), 401);
}

#[test]
fn a_store_failure_fails_the_request_closed() {
    let now: u64 = 1_700_000_000;
    let token = create_jwt(21, "user".to_string(), "secret", now).unwrap();
    let failed = authenticate(&token, "secret", now, Err("timed out".to_string())).unwrap_err();
    assert_eq!(failed.status_code(), 500);
}

#[test]
fn expired_and_invalid_tokens_are_both_unauthorized() {
    let now: u64 = 1_700_000_000;
    let token = create_jwt(21, "user".to_string(), "secret", now).unwrap();
    let expired = authenticate(&token, "secret", now + 86401, Ok(false)).unwrap_err();
    let forged = authenticate(&token, "other", now, Ok(false)).unwrap_err();
    assert_eq!(expired.status_code(), 401);
    assert_eq!(forged.status_code(), 401);
}

#[test]
fn logout_plans_the_remaining_lifetime() {
    let now: u64 = 1_700_000_000;
    let claims = Claims { user_id: 4, exp: now + 500, iat: now, role: "user".to_string() };
    let entry = logout_plan(&claims, "the-token", now).unwrap();
    assert_eq!(entry.subject, 4);
    assert_eq!(entry.ttl_seconds, 500);
    assert_eq!(entry.key, auth_core::fingerprint::blacklist_key("the-token"));
}

#[test]
fn revoking_an_expired_token_is_a_no_op() {
    let now: u64 = 1_700_000_000;
    let claims = Claims { user_id: 4, exp: now, iat: now - 100, role: "user".to_string() };
    assert!(logout_plan(&claims, "the-token", now).is_none());
    assert!(blacklist_entry("the-token", 4, now, now).is_none());
    assert!(blacklist_entry("the-token", 4, now + 1, now).is_some());
}

#[test]
fn an_unconfirmed_revocation_write_is_an_internal_error() {
    assert!(logout_outcome(true).is_ok());
    let failed = logout_outcome(false).unwrap_err();
    assert_eq!(failed.status_code(), 500);
}

#[test]
fn role_rules_guard_the_admin_and_self_paths() {
    let now: u64 = 1_700_000_000;
    let token = create_jwt(21, "user".to_string(), "secret", now).unwrap();
    let user = authenticate(&token, "secret", now, Ok(false)).unwrap();
    assert!(require_admin(&user).is_err());
    assert!(require_self_or_admin(&user, 21, "Not authorized").is_ok());
    assert!(require_self_or_admin(&user, 22, "Not authorized").is_err());

    let admin_token = create_jwt(1, "admin".to_string(), "secret", now).unwrap();
    let admin = authenticate(&admin_token, "secret", now, Ok(false)).unwrap();
    assert!(require_admin(&admin).is_ok());
    assert!(require_self_or_admin(&admin, 22, "Not authorized").is_ok());
}

#[test]
fn error_envelopes_carry_code_reason_and_message() {
    let e = AppError::bad_request("missing field");
    let body = e.error_response();
    assert_eq!(body.status_code, 400);
    assert_eq!(body.error, "Bad Request");
    assert_eq!(body.message, "Bad Request: Bad request: missing field");
    let e = AppError::Forbidden("no".to_string());
    assert_eq!(e.error_response().status_code, 403);
    let e = AppError::not_found("user");
    assert_eq!(e.error_response().error, "Not Found");
}
