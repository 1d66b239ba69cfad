//! The immutable startup configuration, loaded once at process start and
//! injected into the components that need it.

use vstd::prelude::*;

verus! {

/// Process-wide configuration. The signing secret and the password salt are
/// injected explicitly (never looked up ambiently), so deterministic values
/// can be supplied outside production.
pub struct Config {
    pub database_url: String,
    pub redis_url: String,
    pub jwt_secret: String,
    pub aws_ses_urn: String,
    pub aws_ses_email: String,
    pub salt: String,
}

} // verus!
