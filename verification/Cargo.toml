[package]
name = "echo_rust_agent_proxy"
version = "0.1.0"
edition = "2021"
publish = false

[dependencies]
shell-words = "1"
scraper = "*"
urlencoding = "2"
chrono = "0.4"
anyhow = "1"
serde = { version = "1", features = ["derive"] }
serde_json = "1"
toml = "*"
tokio = { version = "1", features = ["full"] }
reqwest = { version = "0.12", default-features = false, features = ["json"] }
dirs-next = "2"
