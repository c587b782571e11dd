//! Request and response shapes of the authentication surface, and the claims
//! embedded in a signed token.

use vstd::prelude::*;
use crate::user::{User, UserRole};

verus! {

/// A registration request: credentials plus profile fields.  The optional
/// enrollment code requests the administrator role.
#[derive(Debug)]
pub struct RegisterRequest {
    pub username: String,
    pub full_name: String,
    pub email: String,
    pub password: String,
    pub phone_number: Option<String>,
    pub admin_code: Option<String>,
}

/// A login request: the name-or-email field and the password.
#[derive(Debug)]
pub struct LoginRequest {
    pub email: String,
    pub password: String,
}

/// What a successful login returns: the token and a summary of the account.
#[derive(Debug, Clone)]
pub struct AuthResponse {
    pub token: String,
    pub user_id: i32,
    pub username: String,
    pub role: String,
}

/// The identity payload of a signed token: subject, validity window, and the
/// role at issuance time.  Timestamps are epoch seconds.
#[derive(Debug, Clone)]
pub struct Claims {
    pub user_id: i32,
    pub exp: u64,
    pub iat: u64,
    pub role: String,
}

/// The mathematical shape of a claims value.
pub ghost struct ClaimsView {
    pub user_id: i32,
    pub exp: u64,
    pub iat: u64,
    pub role: Seq<char>,
}

/// A role string that can be embedded in a token payload: printable ASCII
/// without the quote and backslash characters.  Every canonical role name
/// satisfies this.
pub open spec fn role_char_ok(c: char) -> bool {
    ' ' <= c && c <= '~' && c != '"' && c != '\\'
}

pub open spec fn role_wf(role: Seq<char>) -> bool {
    forall|i: int| 0 <= i < role.len() ==> role_char_ok(#[trigger] role[i])
}

impl View for Claims {
    type V = ClaimsView;

    open spec fn view(&self) -> ClaimsView {
        ClaimsView { user_id: self.user_id, exp: self.exp, iat: self.iat, role: self.role@ }
    }
}

impl ClaimsView {
    /// Well-formed claims: the expiry lies after issuance and the role can
    /// be framed in a token payload.
    pub open spec fn wf(&self) -> bool {
        self.iat < self.exp && role_wf(self.role)
    }
}

impl Claims {
    /// Claims for a user as of `now`, valid for one hour.
    pub fn from_user(user: &User, now: u64) -> (c: Claims)
        requires
            now + 3600 <= u64::MAX,
        ensures
            c@.user_id == user.id,
            c@.iat == now,
            c@.exp == now + 3600,
            c@.role == crate::user::spec_role_str(user.user_role),
            c@.wf(),
    {
        let role = user.user_role.role_string();
        proof {
            lemma_role_str_wf(user.user_role);
        }
        Claims { user_id: user.id, exp: now + 3600, iat: now, role }
    }
}

/// The canonical name of every role is a well-formed role string.
pub proof fn lemma_role_str_wf(r: UserRole)
    ensures
        role_wf(crate::user::spec_role_str(r)),
{
    reveal_strlit("user");
    reveal_strlit("admin");
    reveal_strlit("guest");
}

/// A profile update: the account and the fields to change.
#[derive(Debug)]
pub struct UserUpdate {
    pub id: i32,
    pub username: Option<String>,
    pub full_name: Option<String>,
    pub email: Option<String>,
    pub phone_number: Option<String>,
}

/// A query for recently registered accounts.
#[derive(Debug)]
pub struct RecentUsersQuery {
    pub days: i64,
    pub limit: i64,
}

/// A password change: the current password, proved, and the new one.
#[derive(Debug)]
pub struct PasswordChangeRequest {
    pub current_password: String,
    pub new_password: String,
}

/// A pagination window over the user listing.
#[derive(Debug)]
pub struct PaginationQuery {
    pub page: usize,
    pub page_size: usize,
}

/// An account summary safe to expose: no password hash.
#[derive(Debug)]
pub struct UserResponse {
    pub id: i32,
    pub username: String,
    pub full_name: String,
    pub email: String,
    pub phone_number: Option<String>,
    pub role: String,
}

impl UserResponse {
    /// The outward summary of a credential record.
    pub fn from_user(user: User) -> (r: UserResponse)
        ensures
            r.id == user.id,
            r.username@ == user.username@,
            r.full_name@ == user.full_name@,
            r.email@ == user.email@,
            r.phone_number == user.phone_number,
            r.role@ == crate::user::spec_role_str(user.user_role),
    {
        let role = user.user_role.role_string();
        UserResponse {
            id: user.id,
            username: user.username,
            full_name: user.full_name,
            email: user.email,
            phone_number: user.phone_number,
            role,
        }
    }
}

/// A role change request for an account.
#[derive(Debug)]
pub struct UpdateRoleRequest {
    pub role: UserRole,
}

/// The default window, in days, for the recent-users query.
pub fn default_days() -> (d: i64)
    ensures
        d == 7,
{
    7
}

/// The default row limit for the recent-users query.
pub fn default_limit() -> (l: i64)
    ensures
        l == 10,
{
    10
}

/// The default page index for pagination.
pub fn default_page() -> (p: usize)
    ensures
        p == 0,
{
    0
}

/// The default page size for pagination.
pub fn default_page_size() -> (s: usize)
    ensures
        s == 10,
{
    10
}

} // verus!
