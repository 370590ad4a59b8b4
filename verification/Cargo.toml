[package]
name = "pty_mcp"
version = "0.1.0"
edition = "2021"
publish = false

[dependencies]
anyhow = "=1.0.104"
chrono = { version = "=0.4.45", features = ["serde"] }
clap = { version = "=4.6.7", features = ["derive"] }
nix = { version = "=0.31.3", features = ["signal"] }
portable-pty = "=0.9.0"
regex = "=1.13.1"
rmcp = { version = "=1.8.0", features = ["server", "macros", "transport-io", "schemars"] }
schemars = { version = "=1.2.3", features = ["chrono04"] }
serde = { version = "=1.0.229", features = ["derive"] }
serde_json = "=1.0.154"
strip-ansi-escapes = "=0.2.1"
thiserror = "=2.0.21"
tokio = { version = "=1.54.1", features = ["full"] }
tracing-subscriber = { version = "=0.3.23", features = ["env-filter"] }
uuid = { version = "=1.29.0", features = ["v4"] }
