[package]
name = "ambient_air"
version = "0.1.0"
edition = "2021"
publish = false

[dependencies]
heapless = "0.9"
embedded-hal = "1.0"
embedded-hal-async = "1.0"
serde = { version = "1", default-features = false, features = ["derive"] }
serde-json-core = "0.6"
micromath = "2"
