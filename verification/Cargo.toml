[package]
name = "leanpub_client"
version = "0.1.0"
edition = "2021"
publish = false

[dependencies]
anyhow = "*"
clap = { version = "*", features = ["derive"] }
dotenvy = "*"
reqwest = { version = "*", default-features = false }
serde_json = "*"
tokio = { version = "*", default-features = false, features = ["rt", "macros"] }
