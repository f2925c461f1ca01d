//! Request data for authentication.

use vstd::prelude::*;
use super::middleware::Credentials;

verus! {

//		PostLogin

/// The data sent by the login form: the credentials to check and where
/// to go afterwards.
pub struct PostLogin<C: Credentials> {
    /// The user credentials needed to log in.
    pub credentials: C,

    /// The URL to redirect to after logging in.
    pub uri: String,
}

impl<C: Credentials> PostLogin<C> {
    /// Bundles the login form's fields.
    pub fn new(credentials: C, uri: String) -> (r: PostLogin<C>)
        ensures
            r.uri == uri,
    {
        PostLogin { credentials, uri }
    }
}

} // verus!
