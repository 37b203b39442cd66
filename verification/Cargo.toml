[package]
name = "sigmap"
version = "0.1.0"
edition = "2021"
publish = false

[dependencies]
iced = { version = "0.14", features = ["canvas", "tokio"] }
