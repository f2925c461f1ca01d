//! Utility types for authentication.

use vstd::prelude::*;

verus! {

//		InvalidUriParts

/// Represents an error when constructing a URI from parts, carrying the
/// underlying error's message.  This narrows the wider error a URI
/// builder reports down to the invalid-URI case, as a value that can be
/// cloned and compared.
#[derive(Clone, Debug, PartialEq, Eq)]
pub struct InvalidUriParts {
    /// The underlying error's message.
    pub detail: String,
}

impl InvalidUriParts {
    /// Wraps the underlying error's message.
    pub fn new(detail: String) -> (r: InvalidUriParts)
        ensures
            r.detail == detail,
    {
        InvalidUriParts { detail }
    }

    /// The error's message.
    pub fn message(&self) -> (r: &String)
        ensures
            r@ == self.detail@,
    {
        &self.detail
    }
}

} // verus!
