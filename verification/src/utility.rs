//! Utility types for the hosting application.

use vstd::prelude::*;
use crate::auth::middleware::Credentials as AuthCredentials;

verus! {

//		Credentials

/// The data required to authenticate a user.
#[derive(Clone, Debug, PartialEq, Eq)]
pub struct Credentials {
    /// The username.
    username: String,

    /// The password.
    password: String,
}

impl Credentials {
    /// The username, for specifications.
    pub closed spec fn spec_username(self) -> Seq<char> {
        self.username@
    }

    /// The password, for specifications.
    pub closed spec fn spec_password(self) -> Seq<char> {
        self.password@
    }

    /// Bundles a username and password.
    pub fn new(username: String, password: String) -> (r: Credentials)
        ensures
            r.spec_username() == username@,
            r.spec_password() == password@,
    {
        Credentials { username, password }
    }

    /// The username these credentials claim.
    pub fn username(&self) -> (r: &String)
        ensures
            r@ == self.spec_username(),
    {
        &self.username
    }

    /// Whether the credentials match a stored username and password
    /// pair.
    pub fn matches(&self, username: &String, password: &String) -> (r: bool)
        ensures
            r == (self.spec_username() == username@ && self.spec_password() == password@),
    {
        self.username == *username && self.password == *password
    }
}

impl AuthCredentials for Credentials {
    /// Only the username is ever written to a log; the password is not.
    fn to_loggable_string(&self) -> String {
        self.username.clone()
    }
}

} // verus!
