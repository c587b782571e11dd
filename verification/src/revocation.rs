//! The revocation store model and the decisions around it.
//!
//! The store itself is an external keyed service; the library computes keys
//! and write plans and models the store's contents as a map from keys to the
//! revoking subject.  Single-key writes overwrite, so revoking a token twice
//! is the same as revoking it once.

use vstd::prelude::*;
use crate::dto::Claims;
use crate::errors::AppError;
use crate::fingerprint::spec_blacklist_key;

verus! {

/// The store's contents after recording a revocation: the key now maps to
/// the revoking subject, and nothing else changes.
pub open spec fn blacklist_effect(
    store: Map<Seq<char>, i32>,
    key: Seq<char>,
    subject: i32,
) -> Map<Seq<char>, i32> {
    store.insert(key, subject)
}

/// Whether the store holds a revocation under `key`.
pub open spec fn spec_is_blacklisted(store: Map<Seq<char>, i32>, key: Seq<char>) -> bool {
    store.contains_key(key)
}

/// Revoking the same token twice leaves the store exactly as revoking it
/// once does, and the token reads as revoked after either.
pub proof fn lemma_blacklist_idempotent(store: Map<Seq<char>, i32>, key: Seq<char>, subject: i32)
    ensures
        blacklist_effect(blacklist_effect(store, key, subject), key, subject) == blacklist_effect(
            store,
            key,
            subject,
        ),
        spec_is_blacklisted(blacklist_effect(store, key, subject), key),
        spec_is_blacklisted(blacklist_effect(blacklist_effect(store, key, subject), key, subject), key),
{
    assert(blacklist_effect(blacklist_effect(store, key, subject), key, subject)
        =~= blacklist_effect(store, key, subject));
}

/// What the store should be told for one revocation: the key to write, the
/// subject to record, and the entry's time to live in seconds.
#[derive(Debug)]
pub struct RevocationEntry {
    pub key: String,
    pub subject: i32,
    pub ttl_seconds: u64,
}

/// The write plan for revoking a token: `None` when the token has already
/// expired, since its entry would outlive nothing.
///
/// The time to live equals the token's remaining validity, never more, so an
/// entry expires from the store no later than the token it blacklists.
pub fn blacklist_entry(token: &str, subject_id: i32, exp: u64, now: u64) -> (r: Option<
    RevocationEntry,
>)
    ensures
        exp > now ==> (r matches Some(e) && e.key@ == spec_blacklist_key(token@) && e.subject
            == subject_id && e.ttl_seconds == exp - now),
        exp <= now ==> r is None,
{
    if exp > now {
        let key = crate::fingerprint::blacklist_key(token);
        Some(RevocationEntry { key, subject: subject_id, ttl_seconds: exp - now })
    } else {
        None
    }
}

/// The write plan for logging a session out: the revocation entry for its
/// token, computed from the session's claims, or `None` when the token has
/// already expired and revoking it is a no-op.
pub fn logout_plan(claims: &Claims, token: &str, now: u64) -> (r: Option<RevocationEntry>)
    ensures
        claims@.exp > now ==> (r matches Some(e) && e.key@ == spec_blacklist_key(token@)
            && e.subject == claims@.user_id && e.ttl_seconds == claims@.exp - now),
        claims@.exp <= now ==> r is None,
{
    blacklist_entry(token, claims.user_id, claims.exp, now)
}

/// What logging out reports once the store has answered: a confirmed write
/// is success; an unconfirmed one is an internal failure, never silence.
pub fn logout_outcome(write_confirmed: bool) -> (r: Result<(), AppError>)
    ensures
        write_confirmed <==> r is Ok,
        (r matches Err(e) ==> (e matches AppError::InternalServerError(m) && m@
            == "Token blacklisting failed"@)),
{
    if write_confirmed {
        Ok(())
    } else {
        Err(AppError::InternalServerError(String::from_str("Token blacklisting failed")))
    }
}

} // verus!
