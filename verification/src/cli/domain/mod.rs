pub mod cli;
pub mod config;
