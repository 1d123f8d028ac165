//! Authentication and session core of the Walrus messaging server.
//!
//! The crate holds the rules of the service: how credentials are checked,
//! how bearer tokens are packed, how sessions are issued, rotated against
//! replay and capped per user, and how chats and their memberships come
//! into being.
//!
//! - `auth` has the hashing of passwords, the bearer format, and the
//!   decisions of the session lifecycle, each taken on what the store
//!   answered.
//! - `database` has the tables as sequences of rows, the statements on
//!   them, the operations of the service that are made of the statements,
//!   and the laws that hold of the operations.
//! - `models` has the records that travel between the two, and the rules
//!   for the texts that users give.
//!
//! Every statement has a meaning as a function on the tables, which the
//! contracts state. The sources of time and randomness, SHA-256, base64 and
//! the format of dates come from other crates; what is assumed of them is
//! said where they are called.

pub mod auth;
pub mod config;
pub mod database;
pub mod error;
pub mod models;
pub mod server;
pub mod text;
pub mod time;
