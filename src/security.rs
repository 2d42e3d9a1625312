//! Token types of the service-to-service authentication.
use vstd::prelude::*;

verus! {

/// What a token asserts: who, for which service, with which scopes, and
/// when it was issued and expires (seconds since the Unix epoch).
#[derive(Clone, Debug)]
pub struct Claims {
    pub sub: String,
    pub exp: usize,
    pub iat: usize,
    pub service: String,
    pub scopes: Vec<String>,
}

/// A signed token together with the claims it carries.
#[derive(Clone, Debug)]
pub struct JwtToken {
    pub token: String,
    pub claims: Claims,
}

} // verus!
