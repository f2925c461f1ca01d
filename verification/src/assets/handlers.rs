//! Identification of asset-serving contexts.  The asset handlers
//! themselves read files and stream bodies, and live with the hosting
//! application.

use vstd::prelude::*;

verus! {

//		AssetContext

/// The protection contexts for static assets.
#[derive(Clone, Copy, Debug, PartialEq, Eq, Structural)]
pub enum AssetContext {
    /// Public files.
    Public,
    /// Protected files.
    Protected,
}

impl AssetContext {
    /// Whether assets in this context require an authenticated user.
    pub fn requires_auth(&self) -> (r: bool)
        ensures
            r == (*self == AssetContext::Protected),
    {
        match self {
            AssetContext::Public => false,
            AssetContext::Protected => true,
        }
    }
}

} // verus!
