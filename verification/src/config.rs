//! Configuration for the application.

use vstd::prelude::*;

verus! {

//		LoadingBehavior

/// The possible options for loading local, non-baked-in resources.
#[derive(Clone, Copy, Debug, PartialEq, Eq, Structural)]
pub enum LoadingBehavior {
    /// Deny loading of local resources.
    Deny,
    /// Load local resources if the baked-in resources are not present.
    Supplement,
    /// Load local resources if they exist, otherwise load baked-in
    /// resources.
    Override,
}

//		LocalLoading

/// The loading behaviour for local, non-baked-in resources.
#[derive(Clone, Copy, Debug, PartialEq, Eq, Structural)]
pub struct LocalLoading {
    /// The loading behaviour for protected static assets.
    pub protected_assets: LoadingBehavior,

    /// The loading behaviour for public static assets.
    pub public_assets: LoadingBehavior,
}

impl Default for LocalLoading {
    /// Local loading is denied for both kinds of assets.
    fn default() -> (r: LocalLoading)
        ensures
            r.protected_assets == LoadingBehavior::Deny,
            r.public_assets == LoadingBehavior::Deny,
    {
        LocalLoading {
            protected_assets: LoadingBehavior::Deny,
            public_assets: LoadingBehavior::Deny,
        }
    }
}

//		LocalPaths

/// The local paths for non-baked-in resources.
pub struct LocalPaths {
    /// The path to the protected static assets.
    pub protected_assets: String,

    /// The path to the public static assets.
    pub public_assets: String,
}

impl Default for LocalPaths {
    /// Protected assets under `content`, public assets under `static`.
    fn default() -> (r: LocalPaths)
        ensures
            r.protected_assets@ == "content"@,
            r.public_assets@ == "static"@,
    {
        LocalPaths {
            protected_assets: "content".to_owned(),
            public_assets: "static".to_owned(),
        }
    }
}

//		StaticFiles

/// The configuration options for serving static files.
#[derive(Clone, Copy, Debug, PartialEq, Eq, Structural)]
pub struct StaticFiles {
    /// The file size at which to start streaming, in KB.  Below this
    /// size, the file will be read into memory and served all at once.
    pub stream_threshold: usize,

    /// The size of the stream buffer to use when streaming files, in KB.
    pub stream_buffer: usize,

    /// The size of the read buffer to use when streaming files, in KB.
    pub read_buffer: usize,
}

impl Default for StaticFiles {
    /// Stream from one megabyte, with a 256KB stream buffer and a 128KB
    /// read buffer.
    fn default() -> (r: StaticFiles)
        ensures
            r.stream_threshold == 1000,
            r.stream_buffer == 256,
            r.read_buffer == 128,
    {
        StaticFiles { stream_threshold: 1000, stream_buffer: 256, read_buffer: 128 }
    }
}

//		StatsOptions

/// The configuration options for gathering and processing statistics.
#[derive(Clone, Copy, Debug, PartialEq, Eq, Structural)]
pub struct StatsOptions {
    /// Whether to enable statistics gathering and processing.
    pub enabled: bool,

    /// The size of the buffer to use for storing response times, in
    /// seconds.
    pub timing_buffer_size: usize,

    /// The size of the buffer to use for storing connection data, in
    /// seconds.
    pub connection_buffer_size: usize,

    /// The size of the buffer to use for storing memory usage data, in
    /// seconds.
    pub memory_buffer_size: usize,

    /// The interval at which to send ping messages to WebSocket clients,
    /// in seconds.
    pub ws_ping_interval: usize,

    /// The timeout for WebSocket ping messages, in seconds.
    pub ws_ping_timeout: usize,
}

impl Default for StatsOptions {
    /// Statistics enabled, one day of one-second entries per buffer, a
    /// ping every minute with a ten-second timeout.
    fn default() -> (r: StatsOptions)
        ensures
            r.enabled == true,
            r.timing_buffer_size == 86400,
            r.connection_buffer_size == 86400,
            r.memory_buffer_size == 86400,
            r.ws_ping_interval == 60,
            r.ws_ping_timeout == 10,
    {
        StatsOptions {
            enabled: true,
            timing_buffer_size: 86400,
            connection_buffer_size: 86400,
            memory_buffer_size: 86400,
            ws_ping_interval: 60,
            ws_ping_timeout: 10,
        }
    }
}

} // verus!
