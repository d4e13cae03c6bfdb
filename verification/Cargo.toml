[package]
name = "consensus"
version = "0.1.0"
edition = "2021"
publish = false

[dependencies]
threshold_crypto = "0.4"
tokio = { version = "1", features = ["sync", "time", "macros", "rt"] }
serde = { version = "1", features = ["derive"] }
bincode = "1.3"
thiserror = "1"
log = "0.4"
bytes = "1"
futures = "0.3"

[dev-dependencies]
rand = "0.7"
