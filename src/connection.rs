//! The encrypted session with an access point.

pub mod diffie_hellman;

use vstd::prelude::*;

verus! {

/// What the client logs in with: a user name and password, or an access
/// token.
#[derive(Clone, Debug, PartialEq, Eq)]
pub enum Credentials {
    UsernamePassword { username: String, password: String },
    AccessToken(String),
}

impl Credentials {
    pub fn from_username_and_password(username: String, password: String) -> (r: Credentials)
        ensures
            r == (Credentials::UsernamePassword { username, password }),
    {
        Credentials::UsernamePassword { username, password }
    }

    pub fn from_access_token(token: String) -> (r: Credentials)
        ensures
            r == Credentials::AccessToken(token),
    {
        Credentials::AccessToken(token)
    }
}

/// What opening a session needs: the credentials and an optional proxy.
#[derive(Clone, Debug)]
pub struct SessionConfig {
    pub login_creds: Credentials,
    pub proxy_url: Option<String>,
}

} // verus!
