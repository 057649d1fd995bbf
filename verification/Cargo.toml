[package]
name = "rustdesk_bridge"
version = "0.1.0"
edition = "2021"
publish = false

[dependencies]
flutter_rust_bridge = "1.80"
lazy_static = "1"
opus-rs = "*"
serde = { version = "1", features = ["derive"] }
serde_json = { version = "1", features = ["preserve_order"] }
uuid = "1"
