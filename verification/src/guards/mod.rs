//! What stands between a request and a protected operation.

pub mod auth;
