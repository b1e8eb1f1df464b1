[package]
name = "qqh"
version = "0.1.0"
edition = "2021"
publish = false

[dependencies]
anyhow = "1"
askama = "*"
axum = "0.8"
clap = { version = "4", features = ["derive"] }
clap-stdin = "*"
constant_time_eq = "*"
jiff = "0.2"
redb = "3"
reqwest = { version = "0.12", default-features = false, features = ["json"] }
serde = { version = "1", features = ["derive"] }
serde_json = "1"
text-splitter = "*"
thiserror = "2"
tokio = { version = "1", features = ["macros", "net", "rt-multi-thread"] }
toml = "*"
tracing = "0.1"
