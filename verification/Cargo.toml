[package]
name = "xet_composer_backend"
version = "0.1.0"
edition = "2021"
publish = false

[dependencies]
serde = { version = "1", features = ["derive"] }
serde_json = "1"
tera = { version = "1", default-features = false }
tempfile = "3"
chrono = "0.4"
axum = "0.6"
tokio = { version = "1", features = ["rt-multi-thread", "macros", "net"] }
