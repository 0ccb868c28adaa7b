[package]
name = "gesture_ease"
version = "0.1.0"
edition = "2021"
publish = false

[dependencies]
byteorder = "*"
flume = "*"
glam = "*"
serde = { version = "*", features = ["derive"] }
serde_json = "*"
