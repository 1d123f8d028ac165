//! The records that the service reads and writes.

pub mod chat;
pub mod listing;
pub mod message;
pub mod resource;
pub mod session;
pub mod user;
