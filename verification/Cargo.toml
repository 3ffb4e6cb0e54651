[package]
name = "rantz_proto"
version = "0.1.0"
edition = "2021"
publish = false

[dependencies]
serde = { version = "1.0", features = ["derive"] }
ron = { version = "0.8" }
