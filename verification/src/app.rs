//! Application-wide configuration data.

pub mod config;
