//! Deployment configuration: where the persistence service lives and which
//! platform application identifies the bot. Loaded by the host program;
//! carried here as plain values.
use vstd::prelude::*;

verus! {

/// Connection string of the persistence service.
#[derive(Clone, Debug)]
pub struct DbConfig {
    pub url: String,
}

/// Platform application credentials.
#[derive(Clone, Debug)]
pub struct TtvConfig {
    pub client_id: String,
    pub client_secret: String,
}

/// The whole deployment configuration.
#[derive(Clone, Debug)]
pub struct Config {
    pub db: DbConfig,
    pub ttv: TtvConfig,
}

} // verus!
