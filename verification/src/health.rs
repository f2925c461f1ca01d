//! Health check data.

pub mod responses;
