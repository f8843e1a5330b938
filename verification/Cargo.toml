[package]
name = "oled"
version = "0.1.0"
edition = "2021"
publish = false

[dependencies]
serde_json = "*"
serde = { version = "*", features = ["derive"] }
anyhow = "*"
tokio = { version = "*", features = ["full"] }
rppal = "*"
embedded-graphics = "*"
bitmap-font = "*"
local-ip-address = "*"
dotenv = "*"
tracing = "*"
tracing-log = "*"
tracing-subscriber = { version = "*", features = ["env-filter"] }
clap = { version = "*", features = ["derive"] }
strum = { version = "*", features = ["derive"] }
axum = "*"
reqwest = { version = "*", default-features = false, features = ["json"] }
