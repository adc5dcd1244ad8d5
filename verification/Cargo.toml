[package]
name = "authgate"
version = "0.1.0"
edition = "2021"
publish = false

[dependencies]
base64 = "*"
axum = "*"
tower = "*"
tokio = { version = "*", features = ["rt-multi-thread", "macros", "net"] }
futures-util = "*"
log = "*"
