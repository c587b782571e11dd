//! The request authenticator, run before protected handler logic.
//!
//! The flow per request: extract the bearer token from the authorization
//! header, verify it with the token codec, check the revocation store, and
//! produce the authenticated identity for downstream authorization.  The
//! store lookup itself is external; its answer is handed in, and a failed
//! lookup fails the request rather than letting it pass.

use vstd::prelude::*;
use crate::dto::{Claims, ClaimsView};
use crate::errors::AppError;
use crate::jwt::{TokenError, spec_verify_token, verify_token};

verus! {

/// The authenticated identity of a request: the subject, the role snapshot
/// carried in the token, the full claims, and the raw token (needed again at
/// logout to revoke it).
#[derive(Debug, Clone)]
pub struct AuthenticatedUser {
    pub user_id: i32,
    pub role: String,
    pub claims: Claims,
    pub token: String,
}

/// The token carried by an authorization header: the text after the
/// `Bearer ` prefix, or nothing when the prefix is absent.
pub open spec fn spec_bearer(h: Seq<char>) -> Option<Seq<char>> {
    if h.len() >= 7 && h.subrange(0, 7) == "Bearer "@ {
        Some(h.subrange(7, h.len() as int))
    } else {
        None
    }
}

/// Extracts the bearer token from an authorization header.  A missing
/// header and a malformed prefix are rejected identically, as the same
/// unauthorized reply.
pub fn get_token_from_header<'a>(header: Option<&'a str>) -> (r: Result<&'a str, AppError>)
    ensures
        (match header {
            Some(h) => match spec_bearer(h@) {
                Some(t) => r matches Ok(tok) && tok@ == t,
                None => r is Err,
            },
            None => r is Err,
        }),
        (r matches Err(e) ==> (e matches AppError::Unauthorized(m) && m@
            == "Authentication token is missing"@)),
{
    proof {
        reveal_strlit("Bearer ");
    }
    match header {
        None => Err(AppError::token_missing()),
        Some(h) => {
            let n = h.unicode_len();
            if n < 7 {
                return Err(AppError::token_missing());
            }
            if !(h.get_char(0) == 'B' && h.get_char(1) == 'e' && h.get_char(2) == 'a' && h.get_char(
                3,
            ) == 'r' && h.get_char(4) == 'e' && h.get_char(5) == 'r' && h.get_char(6) == ' ') {
                proof {
                    reveal_strlit("Bearer ");
                    let pre = h@.subrange(0, 7);
                    assert(pre[0] == h@[0] && pre[1] == h@[1] && pre[2] == h@[2] && pre[3] == h@[3]
                        && pre[4] == h@[4] && pre[5] == h@[5] && pre[6] == h@[6]);
                    assert(h@.subrange(0, 7) != "Bearer "@);
                }
                return Err(AppError::token_missing());
            }
            proof {
                assert(h@.subrange(0, 7) =~= "Bearer "@);
            }
            Ok(h.substring_char(7, n))
        },
    }
}

/// Authenticates a request from its bearer token, the signing secret, the
/// current time, and the revocation store's answer for the token's key.
///
/// Revocation takes precedence: whenever the store reports the token
/// revoked, the request is rejected, however valid the token's signature
/// and window are.  A store failure fails the request (closed), never
/// admits it.
pub fn authenticate(token: &str, secret: &str, now: u64, revoked: Result<bool, String>) -> (r:
    Result<AuthenticatedUser, AppError>)
    ensures
        (spec_verify_token(token@, secret@, now) == Err::<ClaimsView, TokenError>(
            TokenError::Expired,
        ) ==> (r matches Err(e) && e matches AppError::Unauthorized(m) && m@
            == "Authentication token expired"@)),
        (spec_verify_token(token@, secret@, now) == Err::<ClaimsView, TokenError>(
            TokenError::Invalid,
        ) ==> (r matches Err(e) && e matches AppError::Unauthorized(m) && m@
            == "Invalid authentication token"@)),
        (spec_verify_token(token@, secret@, now) is Ok ==> (revoked matches Err(m) ==> (r matches
        Err(e) && e matches AppError::RedisError(mm) && mm@ == m@))),
        (spec_verify_token(token@, secret@, now) is Ok && revoked == Ok::<bool, String>(true) ==> (
        r matches Err(e) && e matches AppError::Unauthorized(m) && m@
            == "Token has been revoked"@)),
        (revoked == Ok::<bool, String>(true) ==> r is Err),
        (spec_verify_token(token@, secret@, now) matches Ok(cv) ==> (revoked == Ok::<bool, String>(
            false,
        ) ==> (r matches Ok(u) && u.user_id == cv.user_id && u.role@ == cv.role && u.claims@ == cv
            && u.token@ == token@))),
{
    let claims = match verify_token(token, secret, now) {
        Ok(c) => c,
        Err(TokenError::Expired) => {
            return Err(AppError::token_expired());
        },
        Err(TokenError::Invalid) => {
            return Err(AppError::token_invalid());
        },
    };
    let is_revoked = match revoked {
        Ok(b) => b,
        Err(m) => {
            return Err(AppError::RedisError(m));
        },
    };
    if is_revoked {
        return Err(AppError::Unauthorized(String::from_str("Token has been revoked")));
    }
    let role = claims.role.clone();
    let user_id = claims.user_id;
    let token_string = String::from_str(token);
    Ok(AuthenticatedUser { user_id, role, claims, token: token_string })
}

/// Allows only administrators through: the per-endpoint rule for the
/// listing, search and account-management operations.
pub fn require_admin(auth: &AuthenticatedUser) -> (r: Result<(), AppError>)
    ensures
        r is Ok <==> auth.role@ == "admin"@,
        (r matches Err(e) ==> (e matches AppError::Forbidden(m) && m@
            == "Admin access required"@)),
{
    let admin = String::from_str("admin");
    if auth.role.eq(&admin) {
        Ok(())
    } else {
        Err(AppError::Forbidden(String::from_str("Admin access required")))
    }
}

/// Allows the account's own holder or an administrator through: the
/// per-endpoint rule for reading or changing a single account.
pub fn require_self_or_admin(auth: &AuthenticatedUser, target_id: i32, denial: &str) -> (r: Result<
    (),
    AppError,
>)
    ensures
        r is Ok <==> (auth.user_id == target_id || auth.role@ == "admin"@),
        (r matches Err(e) ==> (e matches AppError::Forbidden(m) && m@ == denial@)),
{
    if auth.user_id == target_id {
        return Ok(());
    }
    let admin = String::from_str("admin");
    if auth.role.eq(&admin) {
        Ok(())
    } else {
        Err(AppError::Forbidden(String::from_str(denial)))
    }
}

} // verus!
