[package]
name = "coding_agent"
version = "0.1.0"
edition = "2021"
publish = false

[dependencies]
anyhow = "1"
async-stream = "0.3"
async-trait = "0.1"
chrono = "0.4"
crossterm = "0.28"
dirs = "5"
futures-util = "0.3"
glob = "0.3"
pulldown-cmark = { version = "0.12", default-features = false }
ratatui = "0.29"
regex = "1"
reqwest = { version = "0.12", default-features = false, features = ["json", "stream"] }
rustyline = "14"
serde = { version = "1", features = ["derive"] }
serde_json = "1"
similar = "2"
sled = "0.34"
syntect = { version = "5", default-features = false, features = ["default-fancy"] }
tokio = { version = "1", features = ["full"] }
tokio-stream = "0.1"
toml = "0.8"
tracing = "0.1"
unicode-width = "0.2"
urlencoding = "2"
uuid = { version = "1", features = ["v4"] }
walkdir = "2"
