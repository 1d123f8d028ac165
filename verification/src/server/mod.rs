//! What the transport shares with the service.

pub mod constants;
