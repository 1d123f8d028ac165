//! The tables of the service and the operations on them.

pub mod commands;
pub mod connection;
pub mod laws;
pub mod queries;
pub mod schema;
pub mod service;
pub mod tables;
pub mod utils;
