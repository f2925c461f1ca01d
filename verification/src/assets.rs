//! Static-asset configuration data.

pub mod config;
pub mod handlers;
