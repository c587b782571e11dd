//! The password hasher and the token fingerprint against their real
//! libraries.

use auth_core::fingerprint::{blacklist_key, sha256_hash};
use auth_core::password::{hash_password, hash_then_verify, verify_password};

#[test]
fn verify_accepts_the_hashed_password() {
    let outcome = hash_then_verify("password123").unwrap();
    assert!(outcome);
}

#[test]
fn verify_rejects_a_different_password() {
    let hash = hash_password("password123").unwrap();
    assert_eq!(verify_password("password124", &hash).unwrap(), false);
    assert_eq!(verify_password("", &hash).unwrap(), false);
}

#[test]
fn two_hashes_of_one_password_differ_by_salt() {
    let first = hash_password("password123").unwrap();
    let second = hash_password("password123").unwrap();
    assert_ne!(first, second);
    assert!(verify_password("password123", &first).unwrap());
    assert!(verify_password("password123", &second).unwrap());
}

#[test]
fn malformed_hash_is_an_error_not_a_mismatch() {
    let err = verify_password("password123", "not an encoded hash").unwrap_err();
    assert_eq!(err.status_code(), 500);
}

#[test]
fn fingerprint_matches_the_published_digest() {
    // SHA-256 of "abc", a published test vector.
    assert_eq!(
        sha256_hash("abc"),
        "ba7816bf8f01cfea414140de5dae2223b00361a396177a9cb410ff61f20015ad"
    );
    assert_eq!(
        sha256_hash(""),
        "e3b0c44298fc1c149afbf4c8996fb92427ae41e4649b934ca495991b7852b855"
    );
}

#[test]
fn revocation_keys_carry_the_prefix_and_fingerprint() {
    let key = blacklist_key("abc");
    assert_eq!(
        key,
        "blacklisted_jwt:ba7816bf8f01cfea414140de5dae2223b00361a396177a9cb410ff61f20015ad"
    );
    assert_ne!(blacklist_key("abc"), blacklist_key("abd"));
}
