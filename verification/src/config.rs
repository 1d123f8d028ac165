//! The configuration of the application.

use crate::database::connection::DbConfig;
use vstd::prelude::*;

verus! {

/// Where the server listens.
#[derive(Clone, Debug)]
pub struct ServerConfig {
    pub address: String,
}

/// The configuration of the server and of its database.
#[derive(Clone, Debug)]
pub struct AppConfig {
    pub server: ServerConfig,
    pub database: DbConfig,
}

} // verus!
