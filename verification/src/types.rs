//! The session-level data shapes: login credentials, the issued token, the
//! persisted login record, and service information.

use vstd::prelude::*;

verus! {

/// Login credentials sent to the service.
#[derive(Debug, Clone, PartialEq)]
pub struct Login {
    pub username: String,
    pub password: String,
}

/// An issued authentication token. The expiry is an instant in unix
/// seconds.
#[derive(Debug, Clone, PartialEq)]
pub struct LoginToken {
    pub token_type: String,
    pub token: String,
    pub expiry: i64,
}

/// The persisted authenticated context: the service locations plus the
/// credential token. Its absence is the sole signal of "logged out".
#[derive(Debug, Clone, PartialEq)]
pub struct StoredLogin {
    pub api_url: String,
    pub media_url: String,
    pub token: LoginToken,
}

/// Service information.
#[derive(Debug, Clone, Copy, PartialEq, Eq, Structural)]
pub struct ApiInfo {
    pub api_version_major: usize,
    pub api_version_minor: usize,
    pub registration_allowed: bool,
}

} // verus!
