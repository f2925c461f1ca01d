//! Statistics gathering and processing.

pub mod config;
pub mod handlers;
pub mod middleware;
pub mod requests;
pub mod responses;
pub mod state;
pub mod utility;
pub mod worker;
