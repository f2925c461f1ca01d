//! The authentication capability the host implements.

use vstd::prelude::*;

verus! {

//		Credentials

/// An instance of user data providing enough functionality for
/// authentication, as sent by the login form.  The host application
/// implements this for its own credentials type.
pub trait Credentials: Sized {
    /// The relevant identifier formatted to be inserted into a log
    /// message when there has been a failed login attempt.
    fn to_loggable_string(&self) -> String;
}

} // verus!
