[package]
name = "gcore"
version = "0.1.0"
edition = "2021"
publish = false

[dependencies]
blake3 = "1"
hex = "0.4"
dashmap = "5"
serde = { version = "1", features = ["derive"] }
serde_json = "1"
tracing = "0.1"
clap = { version = "4", features = ["derive"] }
thiserror = "1"
chrono = "0.4"
tokio = { version = "1", features = ["rt-multi-thread", "macros", "time"] }
rand = "0.8"
regex = "1"
anyhow = "1"
serde_yml = "*"
