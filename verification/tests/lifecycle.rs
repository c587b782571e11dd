//! The full session lifecycle against in-memory stands-in for the two
//! external stores: register, login, authenticate, logout, and the
//! failure paths around them.

use std::collections::HashMap;

use auth_core::authn::{authenticate, get_token_from_header, AuthenticatedUser};
use auth_core::dto::RegisterRequest;
use auth_core::errors::AppError;
use auth_core::fingerprint::blacklist_key;
use auth_core::revocation::logout_plan;
use auth_core::session::{create_failure, login_outcome, prepare_registration};
use auth_core::user::User;

const SECRET: &str = "signing-secret";
const ADMIN_CODE: &str = "enrollment-secret";

/// An in-memory user store with the uniqueness invariant of the real one.
struct Users {
    rows: Vec<User>,
}

impl Users {
    fn new() -> Users {
        Users { rows: Vec::new() }
    }

    fn insert(&mut self, user: User) -> Result<(), AppError> {
        let duplicate = self
            .rows
            .iter()
            .any(|u| u.username == user.username || u.email == user.email);
        if duplicate {
            return Err(create_failure(true, "unique violation"));
        }
        self.rows.push(user);
        Ok(())
    }

    fn find_by_username_or_email(&self, needle: &str) -> Option<User> {
        self.rows
            .iter()
            .find(|u| u.username == needle || u.email == needle)
            .map(clone_user)
    }
}

fn clone_user(u: &User) -> User {
    User {
        id: u.id,
        username: u.username.clone(),
        full_name: u.full_name.clone(),
        email: u.email.clone(),
        password_hash: u.password_hash.clone(),
        phone_number: u.phone_number.clone(),
        user_role: u.user_role.clone(),
        subscription_expries: u.subscription_expries,
        email_verified: u.email_verified,
        phone_verified: u.phone_verified,
        last_login: u.last_login,
        is_active: u.is_active,
        created_at: u.created_at,
        updated_at: u.updated_at,
    }
}

/// An in-memory revocation store: key to (subject, expiry instant).
struct Revocations {
    entries: HashMap<String, (i32, u64)>,
}

impl Revocations {
    fn new() -> Revocations {
        Revocations { entries: HashMap::new() }
    }

    fn apply_logout(&mut self, identity: &AuthenticatedUser, now: u64) {
        if let Some(entry) = logout_plan(&identity.claims, &identity.token, now) {
            self.entries
                .insert(entry.key, (entry.subject, now + entry.ttl_seconds));
        }
    }

    fn check(&self, token: &str, now: u64) -> Result<bool, String> {
        match self.entries.get(&blacklist_key(token)) {
            Some((_, expiry)) => Ok(now < *expiry),
            None => Ok(false),
        }
    }
}

fn alice_request() -> RegisterRequest {
    RegisterRequest {
        username: "alice".to_string(),
        full_name: "Alice Example".to_string(),
        email: "alice@x.com".to_string(),
        password: "password123".to_string(),
        phone_number: None,
        admin_code: None,
    }
}

#[test]
fn register_login_access_logout_then_rejection() {
    let mut users = Users::new();
    let mut revoked = Revocations::new();
    let now: u64 = 1_700_000_000;

    // Register: the record is created and stored.
    let record = prepare_registration(alice_request(), ADMIN_CODE, now as i64).unwrap();
    users.insert(record).unwrap();

    // Login: the stored credential yields a token.
    let looked_up = users.find_by_username_or_email("alice");
    let response = login_outcome(looked_up, "password123", SECRET, now).unwrap();
    assert_eq!(response.username, "alice");

    // A protected request with the token succeeds.
    let header = format!("Bearer {}", response.token);
    let token = get_token_from_header(Some(&header)).unwrap();
    let check = revoked.check(token, now);
    let identity = authenticate(token, SECRET, now, check).unwrap();
    assert_eq!(identity.role, "user");

    // Logout revokes the token.
    revoked.apply_logout(&identity, now);

    // The same token is now rejected, though it is still unexpired.
    let check_again = revoked.check(&response.token, now + 1);
    let rejected = authenticate(&response.token, SECRET, now + 1, check_again).unwrap_err();
    assert_eq!(rejected.status_code(), 401);
}

#[test]
fn duplicate_email_conflicts_and_bad_password_is_unauthorized() {
    let mut users = Users::new();
    let now: u64 = 1_700_000_000;

    let first = prepare_registration(alice_request(), ADMIN_CODE, now as i64).unwrap();
    users.insert(first).unwrap();

    // A second registration with the same email is a conflict.
    let mut second_request = alice_request();
    second_request.username = "alice2".to_string();
    let second = prepare_registration(second_request, ADMIN_CODE, now as i64).unwrap();
    let conflict = users.insert(second).unwrap_err();
    assert_eq!(conflict.status_code(), 409);

    // A wrong password and an unknown user are the same failure class and
    // message.
    let wrong_password =
        login_outcome(users.find_by_username_or_email("alice"), "wrong-password", SECRET, now)
            .unwrap_err();
    let unknown_user =
        login_outcome(users.find_by_username_or_email("nobody"), "password123", SECRET, now)
            .unwrap_err();
    assert_eq!(wrong_password.status_code(), 401);
    assert_eq!(unknown_user.status_code(), 401);
    assert_eq!(wrong_password.message(), unknown_user.message());
}

#[test]
fn wrong_admin_code_rejects_and_creates_nothing() {
    let mut users = Users::new();
    let now: u64 = 1_700_000_000;

    let mut request = alice_request();
    request.admin_code = Some("not-the-secret".to_string());
    let refused = prepare_registration(request, ADMIN_CODE, now as i64).unwrap_err();
    assert_eq!(refused.status_code(), 401);

    // Nothing reached the store: a later registration of the same account
    // still succeeds.
    let record = prepare_registration(alice_request(), ADMIN_CODE, now as i64).unwrap();
    users.insert(record).unwrap();
    assert!(users.find_by_username_or_email("alice").is_some());
}

#[test]
fn revoking_twice_equals_revoking_once() {
    let mut users = Users::new();
    let mut revoked = Revocations::new();
    let now: u64 = 1_700_000_000;

    let record = prepare_registration(alice_request(), ADMIN_CODE, now as i64).unwrap();
    users.insert(record).unwrap();
    let response =
        login_outcome(users.find_by_username_or_email("alice"), "password123", SECRET, now)
            .unwrap();
    let check = revoked.check(&response.token, now);
    let identity = authenticate(&response.token, SECRET, now, check).unwrap();

    revoked.apply_logout(&identity, now);
    let after_once: Vec<(String, (i32, u64))> =
        revoked.entries.iter().map(|(k, v)| (k.clone(), *v)).collect();
    assert_eq!(revoked.check(&response.token, now + 1), Ok(true));

    revoked.apply_logout(&identity, now);
    let after_twice: Vec<(String, (i32, u64))> =
        revoked.entries.iter().map(|(k, v)| (k.clone(), *v)).collect();
    assert_eq!(revoked.check(&response.token, now + 1), Ok(true));
    assert_eq!(after_once.len(), after_twice.len());
    assert_eq!(after_once.len(), 1);
    assert_eq!(after_once[0], after_twice[0]);
}
