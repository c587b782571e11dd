//! The credential record and the role enumeration.
//!
//! The record mirrors what the external user store keeps for each account.
//! Timestamps are seconds since the Unix epoch.

use vstd::prelude::*;

verus! {

/// The role a credential holds; a snapshot of it is embedded in every issued
/// token.
#[derive(Clone, PartialEq, Eq, Structural, Debug)]
pub enum UserRole {
    User,
    Admin,
    Guest,
}

/// The canonical string of each role.
pub open spec fn spec_role_str(r: UserRole) -> Seq<char> {
    match r {
        UserRole::User => "user"@,
        UserRole::Admin => "admin"@,
        UserRole::Guest => "guest"@,
    }
}

/// The role named by a string: unknown names fall back to the ordinary role.
pub open spec fn spec_role_of_str(s: Seq<char>) -> UserRole {
    if s == "admin"@ {
        UserRole::Admin
    } else {
        UserRole::User
    }
}

impl UserRole {
    /// The canonical lower-case name of this role.
    pub fn as_str(&self) -> (s: &'static str)
        ensures
            s@ == spec_role_str(*self),
    {
        match self {
            UserRole::User => "user",
            UserRole::Admin => "admin",
            UserRole::Guest => "guest",
        }
    }

    /// The canonical lower-case name of this role, as an owned string.
    pub fn role_string(&self) -> (s: String)
        ensures
            s@ == spec_role_str(*self),
    {
        String::from_str(self.as_str())
    }

    /// The role named by a string; anything but the administrator's name maps
    /// to the ordinary role.
    pub fn from_string(role: &String) -> (r: UserRole)
        ensures
            r == spec_role_of_str(role@),
    {
        let admin = String::from_str("admin");
        if role.eq(&admin) {
            UserRole::Admin
        } else {
            UserRole::User
        }
    }
}

/// A credential record as the user store returns it.  The password hash is
/// held for verification and never serialised outward; timestamps are epoch
/// seconds.
#[derive(Debug, Clone)]
pub struct User {
    pub id: i32,
    pub username: String,
    pub full_name: String,
    pub email: String,
    pub password_hash: String,
    pub phone_number: Option<String>,
    pub user_role: UserRole,
    pub subscription_expries: Option<i64>,
    pub email_verified: Option<bool>,
    pub phone_verified: Option<bool>,
    pub last_login: Option<i64>,
    pub is_active: Option<bool>,
    pub created_at: Option<i64>,
    pub updated_at: Option<i64>,
}

} // verus!
