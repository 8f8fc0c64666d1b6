[package]
name = "one_time_keys"
version = "0.1.0"
edition = "2021"
publish = false

[dependencies]
rand = "0.7"
serde = { version = "1", features = ["derive"] }
x25519-dalek = { version = "1.2", features = ["serde"] }
zeroize = "1.3"
