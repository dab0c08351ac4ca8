use vstd::prelude::*;

verus! {

/// Why the tracker's configuration could not be read.
#[derive(Debug)]
pub enum ConfigError {
    /// Reading the environment file failed.
    Io(std::io::Error),
}

/// The configuration of the epoch-rewards tracker.
#[derive(Debug)]
pub struct Config {
    pub rpc_url: String,
    /// The Validator History program id
    pub validator_history_program_id: String,
    /// Full connection string for the postgres DB
    pub db_connection_url: String,
}

} // verus!
