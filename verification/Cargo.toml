[package]
name = "synth"
version = "0.1.0"
edition = "2021"
publish = false

[dependencies]
indexmap = "2"
triple_buffer = "7"
serde = { version = "1", features = ["derive"] }
enum-iterator = "*"
