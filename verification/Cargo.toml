[package]
name = "foundry_local"
version = "0.2.0"
edition = "2021"
publish = false

[dependencies]
serde_json = "1"
serde = { version = "1", features = ["derive"] }
reqwest = { version = "0.12", default-features = false, features = ["json", "stream"] }
tokio = { version = "1", features = ["rt-multi-thread", "macros", "time"] }
futures-util = "0.3"
indicatif = "0.17"
log = "0.4"
env_logger = "*"
anyhow = "1"
thiserror = "*"
which = "*"
