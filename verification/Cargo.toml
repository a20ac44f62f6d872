[package]
name = "minha-receita-rs"
version = "0.1.0"
edition = "2021"
publish = false

[dependencies]
quick-xml = "0.37"
encoding_rs = "0.8"
anyhow = "1"
arrow = { version = "53", default-features = false, features = ["csv", "json", "prettyprint"] }
clap = { version = "4", features = ["derive", "env"] }
comfy-table = "7"
datafusion = "44"
dirs = "5"
futures = "0.3"
indicatif = "0.17"
reqwest = { version = "0.12", default-features = false, features = ["rustls-tls", "stream"] }
serde = { version = "1", features = ["derive"] }
serde_json = "1"
tempfile = "3"
thiserror = "2"
tokio = { version = "1", features = ["full"] }
tracing = "0.1"
zip = { version = "2", default-features = false, features = ["deflate"] }
