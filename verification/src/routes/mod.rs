//! The operations the backend offers, each as a function on plain values.

pub mod access;
pub mod access_profiles;
pub mod active_access_profile;
pub mod auth;
pub mod permissions;
pub mod status;
pub mod users;
pub mod web_ui_users;
