pub mod config;
pub mod inflation;
pub mod rpc_utils;
pub mod stake_accounts;
