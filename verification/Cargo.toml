[package]
name = "antigravity_agent"
version = "0.1.0"
edition = "2021"
publish = false

[dependencies]
moka = { version = "=0.12.16", features = ["sync"] }
read-process-memory = "=0.2.0"
dirs = "=7.0.0"
walkdir = "=2.5.0"
sysinfo = "=0.39.6"
tokio = { version = "=1.53.2", features = ["rt-multi-thread", "sync", "time", "macros"] }
serde = { version = "*", features = ["derive"] }
serde_json = "*"
