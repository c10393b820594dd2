[package]
name = "musicbee-iced"
version = "0.1.0"
edition = "2021"
publish = false

[dependencies]
iced = { version = "=0.14.0", default-features = false, features = ["tiny-skia", "image", "x11", "tokio"] }
serde = { version = "=1.0.229", features = ["derive"] }
