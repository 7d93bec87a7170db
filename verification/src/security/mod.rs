//! Request guards and response headers.

pub mod csrf;
pub mod headers;
