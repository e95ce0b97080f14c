[package]
name = "llm_wiki"
version = "0.1.0"
edition = "2021"
publish = false

[dependencies]
serde = { version = "1", features = ["derive"] }
serde_json = "1"
serde_yaml = "0.9"
toml = "*"
clap = { version = "4", features = ["derive"] }
anyhow = "1"
chrono = "0.4"
petgraph = "*"
petgraph-live = "*"
walkdir = "2"
git2 = { version = "*", default-features = false }
