[package]
name = "canvas_mirror"
version = "0.1.0"
edition = "2021"
publish = false

[dependencies]
anyhow = "1"
clap = { version = "3", features = ["derive"] }
futures = "0.3"
indicatif = "0.17"
num_cpus = "1"
reqwest = { version = "0.11", default-features = false, features = ["json", "rustls-tls"] }
sanitize-filename = "0.4"
serde = { version = "1", features = ["derive"] }
serde_json = "1"
tokio = { version = "1", features = ["full"] }
