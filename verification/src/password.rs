//! The password hasher: one-way salted hashing and verification of
//! credentials.
//!
//! Hashing draws a fresh random salt per call, so two hashes of the same
//! password differ; what is promised of every outcome is that the produced
//! hash is well formed and verifies against the password it was made from.
//! Verification is a function of the password and the encoded hash alone,
//! named by [`password_matches`].

use vstd::prelude::*;
use crate::errors::AppError;

verus! {

/// Whether the hashing library accepts `h` as a well-formed encoded hash
/// string; a function of the string alone.
pub uninterp spec fn hash_wf(h: Seq<char>) -> bool;

/// Whether verifying password `p` against the encoded hash `h` succeeds; a
/// function of the two strings alone, since the salt and parameters are part
/// of `h`.
pub uninterp spec fn password_matches(p: Seq<char>, h: Seq<char>) -> bool;

/// Relies on argon2's `PasswordHasher::hash_password` with default
/// parameters and a fresh `SaltString`: on success the encoded result parses
/// back (`PasswordHash::new`) and verifies against the hashed password.
#[verifier::external_body]
pub fn hash_password(password: &str) -> (r: Result<String, AppError>)
    ensures
        (r matches Ok(h) ==> hash_wf(h@) && password_matches(password@, h@)),
        (r matches Err(e) ==> e is Argon2Error),
{
    let salt = argon2::password_hash::SaltString::generate(
        &mut argon2::password_hash::rand_core::OsRng,
    );
    let argon = argon2::Argon2::default();
    match argon2::PasswordHasher::hash_password(&argon, password.as_bytes(), &salt) {
        Ok(h) => Ok(h.to_string()),
        Err(e) => Err(AppError::Argon2Error(e.to_string())),
    }
}

/// Relies on argon2's `PasswordHash::new` and
/// `PasswordVerifier::verify_password`: parsing succeeds exactly on
/// well-formed encoded hashes, and verification recomputes the digest with
/// the parameters and salt carried in the hash and compares in constant
/// time.
#[verifier::external_body]
pub fn verify_password(password: &str, hashed_password: &str) -> (r: Result<bool, AppError>)
    ensures
        r is Ok <==> hash_wf(hashed_password@),
        (r matches Ok(b) ==> b == password_matches(password@, hashed_password@)),
        (r matches Err(e) ==> e is Argon2Error),
{
    let parsed = match argon2::password_hash::PasswordHash::new(hashed_password) {
        Ok(p) => p,
        Err(e) => {
            return Err(AppError::Argon2Error(e.to_string()));
        },
    };
    let argon = argon2::Argon2::default();
    Ok(
        argon2::PasswordVerifier::verify_password(&argon, password.as_bytes(), &parsed).is_ok(),
    )
}

/// Hashing a password and then verifying that same password never answers
/// `false`: every hash the hasher produces verifies against the password it
/// was made from.
pub fn hash_then_verify(password: &str) -> (r: Result<bool, AppError>)
    ensures
        (r matches Ok(b) ==> b),
{
    let hashed = match hash_password(password) {
        Ok(h) => h,
        Err(e) => {
            return Err(e);
        },
    };
    verify_password(password, hashed.as_str())
}

} // verus!
