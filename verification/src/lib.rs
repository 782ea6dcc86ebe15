//! The core of a door access-control backend.
//!
//! - `guards::auth` turns the `Authorization` header of a request into a
//!   verified claim that has the capability an operation asks for.
//! - `graph` holds users, permissions and access profiles as one snapshot,
//!   with the lookups that walk it and the changes that keep it well formed.
//! - `routes::access` decides whether a presented access code opens the
//!   door under the profile that is active.
//! - `routes::active_access_profile` is the one place that knows which
//!   profile is active, and hands out the commands that make the door
//!   controller follow a change.
//! - `cleanup` orders the steps of a deletion against the data store.
//! - `crypto` is where tokens, digests and the clock come in from outside.
//!
//! The library does no input or output of its own: it is handed rows,
//! headers and replies as plain values and hands back what is to be stored,
//! sent or answered.

pub mod cleanup;
pub mod command;
pub mod crypto;
pub mod db;
pub mod error;
pub mod graph;
pub mod guards;
pub mod models;
pub mod routes;
pub mod seq_lemmas;
pub mod text;
