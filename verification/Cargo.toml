[package]
name = "reactive_core"
version = "0.1.0"
edition = "2021"
publish = false

[dependencies]
nalgebra = "*"
percent-encoding = "2"
serde = { version = "1", features = ["derive"] }
serde_json = "1"
uuid = "1"
