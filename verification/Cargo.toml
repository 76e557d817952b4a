[package]
name = "kuvasivu"
version = "0.1.0"
edition = "2021"
publish = false

[dependencies]
kamadak-exif = "0.6"
image = { version = "0.25", default-features = false, features = ["jpeg", "png", "webp"] }
serde = { version = "1", features = ["derive"] }
toml = "*"
askama = "*"
axum = "0.8"
tokio = { version = "1", features = ["macros", "rt-multi-thread", "net", "fs"] }
tower-http = { version = "0.6", features = ["fs"] }
tracing = "0.1"
tracing-subscriber = "0.3"
