//! The immutable configuration constructed once at startup and passed by
//! reference into every component that needs it.  Loading it from the
//! environment is the caller's concern; absence of a value there is a fatal
//! startup error, never a runtime one.

use vstd::prelude::*;

verus! {

/// The configuration of the backend: connection strings, the signing
/// secret, the listen address, and the admin-enrollment secret code.
#[derive(Debug, Clone)]
pub struct AppConfig {
    pub database_url: String,
    pub jwt_secret: String,
    pub redis_url: String,
    pub host: String,
    pub port: u16,
    pub admin_registration_code: String,
}

} // verus!
