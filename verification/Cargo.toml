[package]
name = "chianti"
version = "0.1.0"
edition = "2021"
publish = false

[dependencies]
base64 = "0.22"
nanoid = "0.4"
mime_guess = "2"
axum = "0.8"
axum-extra = { version = "*", features = ["query"] }
tokio = { version = "1", features = ["full"] }
tokio-util = { version = "0.7", features = ["io"] }
tower-http = { version = "*", features = ["cors", "fs", "trace"] }
diesel = { version = "2", features = ["sqlite", "r2d2"] }
reqwest = { version = "*", default-features = false, features = ["rustls-tls"] }
image = { version = "*", default-features = false, features = ["webp", "png", "jpeg"] }
serde = { version = "1", features = ["derive"] }
clap = { version = "4", features = ["derive"] }
tracing = "0.1"
tracing-subscriber = { version = "0.3", features = ["env-filter"] }
