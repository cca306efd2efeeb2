//! Values handed in by the surrounding service layer: process configuration
//! and the authenticated caller's identity claims. The engine never decodes
//! credentials; it receives an already-validated identity.

use vstd::prelude::*;

verus! {

/// Process configuration, loaded by the service layer from its environment.
#[derive(Clone)]
pub struct Environment {
    pub mongodb_uri: String,
    pub database_name: String,
    pub port: u16,
    pub jwt_secret: String,
    pub email_user: String,
    pub email_password: String,
}

impl Environment {
    /// The secret the service layer signs and verifies session tokens with.
    pub fn get_jwt_secret(&self) -> (r: &str)
        ensures
            r@ == self.jwt_secret@,
    {
        self.jwt_secret.as_str()
    }
}

/// The claims of an authenticated session: the subject's identifier and
/// email, and the token's issue and expiry instants in seconds.
#[derive(Debug)]
pub struct Claims {
    pub sub: String,
    pub exp: i64,
    pub iat: i64,
    pub email: String,
}

} // verus!
