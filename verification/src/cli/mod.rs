pub mod commands;
pub mod domain;
pub mod epoch_to_validator_history_entry;
pub mod utils;
