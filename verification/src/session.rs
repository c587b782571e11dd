//! The session service: registration, login and the decisions around them.
//!
//! The external user store performs the actual lookups and writes; this
//! module holds everything that can be decided from plain values — field
//! validation, the constant-time admin-enrollment check, role
//! determination, password verification and token issuance — with the
//! store's answers handed in as arguments.

use vstd::prelude::*;
use crate::dto::{AuthResponse, ClaimsView, RegisterRequest};
use crate::errors::AppError;
use crate::jwt::spec_token;
use crate::numfmt::spec_i32_chars;
use crate::password::{hash_password, hash_wf, password_matches, verify_password};
use crate::user::{User, UserRole, spec_role_str};

verus! {

use vstd::string::StringSliceAdditionalSpecFns;

/// Whether a string is a well-formed email address, as the validation
/// library judges it; a function of the string alone.
pub uninterp spec fn email_ok(s: Seq<char>) -> bool;

/// Relies on validator's `ValidateEmail` for `&str`: an HTML5-style email
/// address check that depends on the string alone.
#[verifier::external_body]
fn check_email(s: &str) -> (r: bool)
    ensures
        r == email_ok(s@),
{
    validator::ValidateEmail::validate_email(&s)
}

/// The field constraints of a registration request: username and full name
/// lengths, a well-formed email, a minimum password length, and a ten-digit
/// phone number when one is given.
pub open spec fn spec_register_valid(r: &RegisterRequest) -> bool {
    &&& 3 <= r.username@.len() <= 50
    &&& 3 <= r.full_name@.len() <= 80
    &&& email_ok(r.email@)
    &&& r.password@.len() >= 8
    &&& (match r.phone_number {
        Some(p) => p@.len() == 10,
        None => true,
    })
}

/// Checks a registration request's fields, accepting exactly the requests
/// that satisfy [`spec_register_valid`].
pub fn validate_register(r: &RegisterRequest) -> (res: Result<(), AppError>)
    ensures
        res is Ok <==> spec_register_valid(r),
        (res matches Err(e) ==> e is ValidationError),
{
    let ulen = r.username.as_str().unicode_len();
    if !(3 <= ulen && ulen <= 50) {
        return Err(AppError::ValidationError(String::from_str("username length is invalid")));
    }
    let flen = r.full_name.as_str().unicode_len();
    if !(3 <= flen && flen <= 80) {
        return Err(AppError::ValidationError(String::from_str("full name length is invalid")));
    }
    if !check_email(r.email.as_str()) {
        return Err(AppError::ValidationError(String::from_str("email is invalid")));
    }
    if r.password.as_str().unicode_len() < 8 {
        return Err(AppError::ValidationError(String::from_str("password is too short")));
    }
    match &r.phone_number {
        Some(p) => {
            if p.as_str().unicode_len() != 10 {
                return Err(AppError::ValidationError(String::from_str(
                    "phone number must be ten digits",
                )));
            }
        },
        None => {},
    }
    Ok(())
}

/// The field constraints of a login request: both fields nonempty.
pub open spec fn spec_login_valid(r: &crate::dto::LoginRequest) -> bool {
    r.email@.len() >= 1 && r.password@.len() >= 1
}

/// Checks a login request's fields, accepting exactly the requests that
/// satisfy [`spec_login_valid`].
pub fn validate_login(r: &crate::dto::LoginRequest) -> (res: Result<(), AppError>)
    ensures
        res is Ok <==> spec_login_valid(r),
        (res matches Err(e) ==> e is ValidationError),
{
    if r.email.as_str().unicode_len() < 1 {
        return Err(AppError::ValidationError(String::from_str("name or email is required")));
    }
    if r.password.as_str().unicode_len() < 1 {
        return Err(AppError::ValidationError(String::from_str("password is required")));
    }
    Ok(())
}

/// The field constraints of a profile update: each given field obeys the
/// same rule as at registration.
pub open spec fn spec_update_valid(r: &crate::dto::UserUpdate) -> bool {
    &&& (match r.username {
        Some(u) => 3 <= u@.len() <= 50,
        None => true,
    })
    &&& (match r.full_name {
        Some(f) => 3 <= f@.len() <= 80,
        None => true,
    })
    &&& (match r.email {
        Some(e) => email_ok(e@),
        None => true,
    })
    &&& (match r.phone_number {
        Some(p) => p@.len() == 10,
        None => true,
    })
}

/// Checks a profile update's fields, accepting exactly the updates that
/// satisfy [`spec_update_valid`].
pub fn validate_user_update(r: &crate::dto::UserUpdate) -> (res: Result<(), AppError>)
    ensures
        res is Ok <==> spec_update_valid(r),
        (res matches Err(e) ==> e is ValidationError),
{
    match &r.username {
        Some(u) => {
            let ul = u.as_str().unicode_len();
            if !(3 <= ul && ul <= 50) {
                return Err(AppError::ValidationError(String::from_str(
                    "username length is invalid",
                )));
            }
        },
        None => {},
    }
    match &r.full_name {
        Some(f) => {
            let fl = f.as_str().unicode_len();
            if !(3 <= fl && fl <= 80) {
                return Err(AppError::ValidationError(String::from_str(
                    "full name length is invalid",
                )));
            }
        },
        None => {},
    }
    match &r.email {
        Some(e) => {
            if !check_email(e.as_str()) {
                return Err(AppError::ValidationError(String::from_str("email is invalid")));
            }
        },
        None => {},
    }
    match &r.phone_number {
        Some(p) => {
            if p.as_str().unicode_len() != 10 {
                return Err(AppError::ValidationError(String::from_str(
                    "phone number must be ten digits",
                )));
            }
        },
        None => {},
    }
    Ok(())
}

/// Compares a supplied enrollment code against the server's secret in
/// constant time over the code's length.  Codes of differing length are
/// rejected up front, a short-circuit that depends only on the lengths.
pub fn admin_code_matches(supplied: &str, stored: &str) -> (r: bool)
    ensures
        r == (supplied@ == stored@),
{
    broadcast use vstd::utf8::encode_utf8_decode_utf8;

    let sb = supplied.as_bytes_vec();
    let tb = stored.as_bytes_vec();
    let eq = crate::ct::constant_time_eq(sb.as_slice(), tb.as_slice());
    proof {
        if sb@ == tb@ {
            assert(vstd::utf8::decode_utf8(supplied.spec_bytes()) == vstd::utf8::decode_utf8(
                stored.spec_bytes(),
            ));
            assert(supplied@ == stored@);
        }
    }
    eq
}

/// The role a registration earns: the ordinary role without an enrollment
/// code; the administrator role exactly when the supplied code equals the
/// server's secret; a rejection otherwise.
pub fn determine_role(admin_code: &Option<String>, admin_secret: &str) -> (r: Result<
    UserRole,
    AppError,
>)
    ensures
        (admin_code is None ==> r == Ok::<UserRole, AppError>(UserRole::User)),
        (admin_code matches Some(c) ==> (c@ == admin_secret@ <==> r == Ok::<UserRole, AppError>(
            UserRole::Admin,
        ))),
        (admin_code matches Some(c) ==> (c@ != admin_secret@ ==> (r matches Err(e) && e matches
        AppError::Unauthorized(m) && m@ == "Invalid admin code"@))),
{
    match admin_code {
        None => Ok(UserRole::User),
        Some(code) => {
            if admin_code_matches(code.as_str(), admin_secret) {
                Ok(UserRole::Admin)
            } else {
                Err(AppError::Unauthorized(String::from_str("Invalid admin code")))
            }
        },
    }
}

/// The credential record a valid registration inserts: the request's
/// fields, the hash of its password, the earned role, an active account,
/// and creation timestamps of `now`.
pub fn registration_record(
    req: RegisterRequest,
    role: UserRole,
    hashed_password: String,
    id: i32,
    now: i64,
) -> (u: User)
    ensures
        u.id == id,
        u.username@ == req.username@,
        u.full_name@ == req.full_name@,
        u.email@ == req.email@,
        u.password_hash@ == hashed_password@,
        u.phone_number == req.phone_number,
        u.user_role == role,
        u.subscription_expries is None,
        u.email_verified is None,
        u.phone_verified is None,
        u.last_login is None,
        u.is_active == Some(true),
        u.created_at == Some(now),
        u.updated_at == Some(now),
{
    User {
        id,
        username: req.username,
        full_name: req.full_name,
        email: req.email,
        password_hash: hashed_password,
        phone_number: req.phone_number,
        user_role: role,
        subscription_expries: None,
        email_verified: None,
        phone_verified: None,
        last_login: None,
        is_active: Some(true),
        created_at: Some(now),
        updated_at: Some(now),
    }
}

/// Everything a registration decides before the store is asked to insert:
/// the request is validated, the password hashed, the role earned, and the
/// record built with a fresh identifier.  Only the store's uniqueness check
/// remains.
pub fn prepare_registration(req: RegisterRequest, admin_secret: &str, now: i64) -> (r: Result<
    User,
    AppError,
>)
    ensures
        (!spec_register_valid(&req) ==> (r matches Err(e) && e is ValidationError)),
        (spec_register_valid(&req) ==> (match req.admin_code {
            Some(c) => c@ != admin_secret@ ==> (r matches Err(e) && e is Unauthorized),
            None => true,
        })),
        (r matches Ok(u) ==> {
            &&& spec_register_valid(&req)
            &&& u.username@ == req.username@
            &&& u.full_name@ == req.full_name@
            &&& u.email@ == req.email@
            &&& u.phone_number == req.phone_number
            &&& hash_wf(u.password_hash@)
            &&& password_matches(req.password@, u.password_hash@)
            &&& (match req.admin_code {
                Some(c) => (u.user_role == UserRole::Admin <==> c@ == admin_secret@),
                None => u.user_role == UserRole::User,
            })
            &&& u.is_active == Some(true)
            &&& u.created_at == Some(now)
            &&& u.updated_at == Some(now)
        }),
        (spec_register_valid(&req) && (match req.admin_code {
            Some(c) => c@ == admin_secret@,
            None => true,
        }) ==> (r is Ok || (r matches Err(e) && e is Argon2Error))),
{
    match validate_register(&req) {
        Ok(()) => {},
        Err(e) => {
            return Err(e);
        },
    }
    let role = match determine_role(&req.admin_code, admin_secret) {
        Ok(ro) => ro,
        Err(e) => {
            return Err(e);
        },
    };
    let hashed = match hash_password(req.password.as_str()) {
        Ok(h) => h,
        Err(e) => {
            return Err(e);
        },
    };
    let id = crate::ids::convert_i32();
    Ok(registration_record(req, role, hashed, id, now))
}

/// Maps a failed insert to the outward error: a uniqueness violation is a
/// conflict on the duplicate field; anything else stays a store failure.
pub fn create_failure(is_unique_violation: bool, store_message: &str) -> (e: AppError)
    ensures
        (is_unique_violation ==> (e matches AppError::Conflict(m) && m@
            == "Username or email already exist."@)),
        (!is_unique_violation ==> (e matches AppError::DbError(m) && m@ == store_message@)),
{
    if is_unique_violation {
        AppError::Conflict(String::from_str("Username or email already exist."))
    } else {
        AppError::DbError(String::from_str(store_message))
    }
}

/// What a login attempt answers, given the store's lookup result.
///
/// A missing account and a wrong password yield the same unauthorized
/// reply, so the caller cannot learn which of the two failed.  A correct
/// password yields a token embedding the account's current role, valid for
/// twenty-four hours from `now`.
pub fn login_outcome(looked_up: Option<User>, password: &str, secret: &str, now: u64) -> (r:
    Result<AuthResponse, AppError>)
    requires
        now + 86400 <= u64::MAX,
    ensures
        (looked_up is None ==> (r matches Err(e) && e matches AppError::Unauthorized(m) && m@
            == "Invalid credentials"@)),
        (looked_up matches Some(u) ==> {
            &&& (!hash_wf(u.password_hash@) ==> (r matches Err(e) && e is Argon2Error))
            &&& (hash_wf(u.password_hash@) && !password_matches(password@, u.password_hash@) ==> (
            r matches Err(e) && e matches AppError::Unauthorized(m) && m@
                == "Invalid credentials"@))
            &&& (hash_wf(u.password_hash@) && password_matches(password@, u.password_hash@) ==> (
            r matches Ok(a) && a.user_id == u.id && a.username@ == u.username@ && a.role@
                == spec_role_str(u.user_role) && a.token@ == spec_token(
                ClaimsView {
                    user_id: u.id,
                    exp: (now + 86400) as u64,
                    iat: now,
                    role: spec_role_str(u.user_role),
                },
                secret@,
            )))
        }),
{
    let user = match looked_up {
        Some(u) => u,
        None => {
            return Err(AppError::Unauthorized(String::from_str("Invalid credentials")));
        },
    };
    let ok = match verify_password(password, user.password_hash.as_str()) {
        Ok(b) => b,
        Err(e) => {
            return Err(e);
        },
    };
    if !ok {
        return Err(AppError::Unauthorized(String::from_str("Invalid credentials")));
    }
    proof {
        crate::dto::lemma_role_str_wf(user.user_role);
    }
    let role = user.user_role.role_string();
    let token = match crate::jwt::create_jwt(user.id, role, secret, now) {
        Ok(t) => t,
        Err(e) => {
            return Err(e);
        },
    };
    let role_again = user.user_role.role_string();
    Ok(AuthResponse { token, user_id: user.id, username: user.username, role: role_again })
}

/// The message naming an account that was not found by its identifier.
pub open spec fn spec_not_found_id_msg(id: i32) -> Seq<char> {
    "User with id "@ + spec_i32_chars(id) + " not found"@
}

/// Requires an account lookup to have succeeded, or reports which
/// identifier was not found.
pub fn find_user_outcome(looked_up: Option<User>, user_id: i32) -> (r: Result<User, AppError>)
    ensures
        (looked_up matches Some(u) ==> r == Ok::<User, AppError>(u)),
        (looked_up is None ==> (r matches Err(e) && e matches AppError::NotFound(m) && m@
            == spec_not_found_id_msg(user_id))),
{
    match looked_up {
        Some(u) => Ok(u),
        None => {
            let ids = crate::numfmt::i32_to_string(user_id);
            let msg = String::from_str("User with id ").concat(ids.as_str()).concat(" not found");
            Err(AppError::NotFound(msg))
        },
    }
}

/// The message naming an account that was not found by its email.
pub open spec fn spec_not_found_email_msg(email: Seq<char>) -> Seq<char> {
    "User with email "@ + email + " not found"@
}

/// Requires an account lookup by email to have succeeded, or reports which
/// address was not found.
pub fn find_user_mail_outcome(looked_up: Option<User>, email: &str) -> (r: Result<User, AppError>)
    ensures
        (looked_up matches Some(u) ==> r == Ok::<User, AppError>(u)),
        (looked_up is None ==> (r matches Err(e) && e matches AppError::NotFound(m) && m@
            == spec_not_found_email_msg(email@))),
{
    match looked_up {
        Some(u) => Ok(u),
        None => {
            let msg = String::from_str("User with email ").concat(email).concat(" not found");
            Err(AppError::NotFound(msg))
        },
    }
}

/// What a password change decides, given the account's record: the current
/// password must verify against the stored hash, and the result is the hash
/// to store for the new password.
pub fn change_password_outcome(looked_up: Option<User>, user_id: i32, current: &str, new: &str) -> (
    r: Result<String, AppError>)
    ensures
        (looked_up is None ==> (r matches Err(e) && e matches AppError::NotFound(m) && m@
            == spec_not_found_id_msg(user_id))),
        (looked_up matches Some(u) ==> {
            &&& (!hash_wf(u.password_hash@) ==> (r matches Err(e) && e is Argon2Error))
            &&& (hash_wf(u.password_hash@) && !password_matches(current@, u.password_hash@) ==> (
            r matches Err(e) && e matches AppError::Unauthorized(m) && m@
                == "Current password is incorrect"@))
        }),
        (r matches Ok(h) ==> {
            &&& (looked_up matches Some(u) && hash_wf(u.password_hash@) && password_matches(
                current@,
                u.password_hash@,
            ))
            &&& hash_wf(h@)
            &&& password_matches(new@, h@)
        }),
{
    let user = match find_user_outcome(looked_up, user_id) {
        Ok(u) => u,
        Err(e) => {
            return Err(e);
        },
    };
    let ok = match verify_password(current, user.password_hash.as_str()) {
        Ok(b) => b,
        Err(e) => {
            return Err(e);
        },
    };
    if !ok {
        return Err(AppError::Unauthorized(String::from_str("Current password is incorrect")));
    }
    hash_password(new)
}

/// The row window of a page: the store's limit and offset for a pagination
/// query.
pub fn pagination_bounds(page: usize, page_size: usize) -> (r: (i64, i64))
    requires
        page_size <= i64::MAX,
        page * page_size <= i64::MAX,
        page * page_size <= usize::MAX,
    ensures
        r.0 == page_size,
        r.1 == page * page_size,
{
    let limit = page_size as i64;
    proof {
        assert(page * page_size >= 0) by (nonlinear_arith);
    }
    let offset = (page * page_size) as i64;
    (limit, offset)
}

} // verus!
