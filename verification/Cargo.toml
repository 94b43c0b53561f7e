[package]
name = "goose_tasks"
version = "0.1.0"
edition = "2021"
publish = false

[dependencies]
anyhow = "1"
async-trait = "0.1"
humantime = "2"
nix = { version = "*", features = ["signal"] }
pty-process = { version = "0.5", features = ["async"] }
rmcp = { version = "*", default-features = false, features = ["server"] }
rustyline = "*"
serde_json = "1"
strip-ansi-escapes = "0.2"
tokio = { version = "1", features = ["full"] }
tokio-util = "0.7"
tracing = "0.1"
