[package]
name = "depup"
version = "0.1.0"
edition = "2021"
publish = false

[dependencies]
serde_json = { version = "*", features = ["preserve_order"] }
anyhow = "*"
clap = { version = "*", features = ["derive"] }
crossterm = "*"
futures = "*"
reqwest = { version = "*", default-features = false }
tokio = { version = "*", features = ["macros", "rt-multi-thread", "sync", "time"] }
tui = "*"
ansi_term = "*"
node-semver = "*"
