//! Data types of the delegated-authorization (OAuth) endpoints. The token
//! flows themselves are collaborators of the realtime backbone: they produce
//! the identities and scope grants the connection state machine consumes.

use vstd::prelude::*;

use crate::scope::ScopeSet;

verus! {

/// Whether a flag is set; the error payload omits its redirect marker when it
/// is.
pub fn is_true(b: &bool) -> (r: bool)
    ensures
        r == *b,
{
    *b
}

/// The error payload of the authorization endpoints.
pub struct ErrorResponse {
    pub redirect: bool,
    pub error: &'static str,
    pub error_description: &'static str,
}

/// How an authorization code was bound to its verifier.
#[derive(Clone, Copy, Debug, PartialEq, Eq, Structural)]
pub enum CodeChallengeMethod {
    Plain,
    S256,
}

impl CodeChallengeMethod {
    /// The registered name of the method.
    pub fn name(&self) -> (r: &'static str)
        ensures
            *self == CodeChallengeMethod::Plain ==> r@ == "plain"@,
            *self == CodeChallengeMethod::S256 ==> r@ == "S256"@,
    {
        match self {
            CodeChallengeMethod::Plain => "plain",
            CodeChallengeMethod::S256 => "S256",
        }
    }
}

/// Whether a client can keep a secret.
#[derive(Clone, Copy, Debug, PartialEq, Eq, Structural)]
pub enum ClientType {
    Public,
    Confidential,
}

/// A token request, by grant type.
pub enum GrantType {
    AuthorizationCode { code: String, code_verifier: Option<String>, client_id: Option<u64> },
    RefreshToken { refresh_token: String, scope: Option<ScopeSet>, client_id: Option<u64> },
    ClientCredentials { scope: Option<ScopeSet> },
}

} // verus!
