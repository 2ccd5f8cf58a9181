[package]
name = "mcpfile"
version = "0.3.0"
edition = "2021"
publish = false

[dependencies]
anyhow = "1"
bollard = "0.18"
clap = { version = "4", features = ["derive"] }
clap_complete = "4"
futures-util = "0.3"
serde = { version = "1", features = ["derive"] }
thiserror = "2"
tokio = { version = "1", features = ["full"] }
tokio-util = { version = "0.7", features = ["io"] }
toml = "0.8"
