//! Verified core of the stakenet simulator: database record shaping, insert
//! batching, validator-history assembly, command parsing and the planning
//! decisions of the backtest and of the epoch-rewards tracker.

pub mod pubkey;
pub mod text;
pub mod db;
pub mod cli;
pub mod tracker;
