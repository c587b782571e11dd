//! A verified core for an authentication and user-management backend:
//! credential hashing and verification, signed time-bound session tokens,
//! token revocation keyed by fingerprint, and the checks applied to every
//! protected request.
//!
//! External collaborators — the relational user store, the networked
//! revocation store, and the web layer — are driven by callers; their
//! answers are handed into the verified decision functions as plain values.

pub mod authn;
pub mod b64;
pub mod config;
pub mod ct;
pub mod dto;
pub mod errors;
pub mod fingerprint;
pub mod ids;
pub mod jwt;
pub mod numfmt;
pub mod password;
pub mod payload;
pub mod revocation;
pub mod session;
pub mod text;
pub mod user;
