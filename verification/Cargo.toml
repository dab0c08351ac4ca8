[package]
name = "stakenet_simulator"
version = "0.1.0"
edition = "2021"
publish = false

[dependencies]
anchor-lang = "0.31"
anyhow = "1"
borsh = "1"
clap = { version = "4", features = ["derive", "env"] }
dotenvy = "0.15"
envy = "0.4"
futures = "0.3"
serde = { version = "1", features = ["derive"] }
shlex = "1"
solana-account-decoder-client-types = "2.2"
solana-sdk = { version = "2.2", default-features = false }
sqlx = { version = "0.8", default-features = false, features = ["postgres", "runtime-tokio", "bigdecimal"] }
thiserror = "2"
tokio = { version = "1", features = ["macros", "rt-multi-thread", "sync", "io-std"] }
tracing = "0.1"
tracing-subscriber = { version = "0.3", features = ["json", "env-filter"] }
