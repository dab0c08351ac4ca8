pub mod accounts;
pub mod batching;
pub mod cluster_history;
pub mod inflation_rewards;
pub mod validator_history;
pub mod validator_history_entry;
pub mod statement;
