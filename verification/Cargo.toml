[package]
name = "silence-core"
version = "0.1.0"
edition = "2021"
publish = false

[dependencies]
anyhow = "1"
cpal = "0.15"
deepsize = "0.2"
image = { version = "0.25", default-features = false, features = ["png", "jpeg", "gif", "bmp", "webp"] }
opencv = "0.93"
opus = "0.3"
parking_lot = "0.12"
ravif = { version = "0.11", default-features = false, features = ["threading"] }
serde = { version = "1", features = ["derive"] }
tokio = { version = "1", features = ["sync"] }
