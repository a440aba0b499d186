[package]
name = "gptcommit"
version = "0.1.0"
edition = "2021"
publish = false

[dependencies]
anyhow = "1"
async-openai = "0.10"
async-trait = "0.1"
backoff = "0.4"
clap = { version = "4", features = ["derive"] }
colored = "2"
config = { version = "0.13", default-features = false, features = ["toml"] }
dirs = "5"
log = "0.4"
reqwest = { version = "0.11", default-features = false, features = ["json", "gzip", "brotli", "rustls-tls"] }
serde = { version = "1", features = ["derive"] }
serde_json = "1"
simple_logger = "4"
tera = { version = "1", default-features = false }
tiktoken-rs = { version = "0.4", features = ["async-openai"] }
tokio = { version = "1", features = ["full"] }
toml = "0.7"
toml_edit = "0.19"
which = "4"
