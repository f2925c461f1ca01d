//! Authentication data types shared with the hosting application.

pub mod middleware;
pub mod requests;
pub mod utility;
