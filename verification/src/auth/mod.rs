//! Credentials, tokens and the bearer format.

pub mod error;
pub mod rules;
pub mod token;
pub mod utils;
