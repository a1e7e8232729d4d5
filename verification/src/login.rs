//! Data model of the cookie-session login stack: the user row as the
//! session layer sees it, the submitted credentials, and the optional
//! post-login redirect target.

use vstd::prelude::*;

verus! {

/// An authenticated user as the session layer stores it: the stable
/// identifier and the credential bytes bound to the session.
#[derive(Debug, Clone)]
pub struct User {
    pub id: i64,
    pub pw_hash: Vec<u8>,
}

impl User {
    /// The identifier the session layer keys this user by.
    pub fn id(&self) -> (r: i64)
        ensures
            r == self.id,
    {
        self.id
    }

    /// The credential bytes whose change invalidates the session.
    pub fn session_auth_hash(&self) -> (r: &[u8])
        ensures
            r@ == self.pw_hash@,
    {
        self.pw_hash.as_slice()
    }
}

/// The optional URL to redirect to after a successful login.
#[derive(Debug)]
pub struct NextUrl {
    pub next: Option<String>,
}

/// A submitted name-and-password credential.
#[derive(Debug, Clone)]
pub struct Credentials {
    pub name: String,
    pub password: String,
}

} // verus!
