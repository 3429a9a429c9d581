[package]
name = "clad"
version = "0.1.0"
edition = "2021"
publish = false

[dependencies]
serde_json = "*"
uuid = { version = "*", features = ["v4"] }
serde = { version = "*", features = ["derive"] }
axum = "*"
tokio = { version = "*", features = ["full"] }
reqwest = { version = "*", default-features = false, features = ["json", "rustls-tls"] }
futures = "*"
clap = { version = "*", features = ["derive"] }
anyhow = "*"
etcetera = "*"
fs2 = "*"
tempfile = "*"
toml = "*"
chrono = "*"
xshell = "*"
