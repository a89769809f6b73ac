[package]
name = "exercises"
version = "0.1.0"
edition = "2021"
publish = false

[dependencies]
rand = "0.9"
axum = "0.8"
tokio = { version = "1", features = ["macros", "rt-multi-thread", "net"] }
