//! Configuration for the assets-serving functionality.

use vstd::prelude::*;
use crate::app::config::LoadingBehavior;

verus! {

//		ProtectedAssets

/// Loading configuration for protected static assets.
pub struct ProtectedAssets {
    /// The loading behaviour for local, non-baked-in protected static
    /// assets.  This allows local assets to be used to complement the
    /// baked-in assets.
    pub behavior: LoadingBehavior,

    /// The path to the local, non-baked-in protected static assets.
    pub local_path: String,
}

impl Default for ProtectedAssets {
    /// Local loading denied, with assets under `content`.
    fn default() -> (r: ProtectedAssets)
        ensures
            r.behavior == LoadingBehavior::Deny,
            r.local_path@ == "content"@,
    {
        ProtectedAssets { behavior: LoadingBehavior::Deny, local_path: "content".to_owned() }
    }
}

//		PublicAssets

/// Loading configuration for public static assets.
pub struct PublicAssets {
    /// The loading behaviour for local, non-baked-in public static
    /// assets.  This allows local assets to be used to complement the
    /// baked-in assets.
    pub behavior: LoadingBehavior,

    /// The path to the local, non-baked-in public static assets.
    pub local_path: String,
}

impl Default for PublicAssets {
    /// Local loading denied, with assets under `static`.
    fn default() -> (r: PublicAssets)
        ensures
            r.behavior == LoadingBehavior::Deny,
            r.local_path@ == "static"@,
    {
        PublicAssets { behavior: LoadingBehavior::Deny, local_path: "static".to_owned() }
    }
}

//		StaticFiles

/// The configuration options for serving static files.
#[derive(Clone, Copy, Debug, PartialEq, Eq, Structural)]
pub struct StaticFiles {
    /// The file size at which to start streaming, in KB.  Below this
    /// size, the file will be read into memory and served all at once.
    pub stream_threshold: usize,

    /// The size of the stream buffer to use when streaming files, in KB.
    pub stream_buffer: usize,

    /// The size of the read buffer to use when streaming files, in KB.
    pub read_buffer: usize,
}

impl Default for StaticFiles {
    /// Stream from one megabyte, with a 256KB stream buffer and a 128KB
    /// read buffer.
    fn default() -> (r: StaticFiles)
        ensures
            r.stream_threshold == 1000,
            r.stream_buffer == 256,
            r.read_buffer == 128,
    {
        StaticFiles { stream_threshold: 1000, stream_buffer: 256, read_buffer: 128 }
    }
}

} // verus!
