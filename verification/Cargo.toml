[package]
name = "edtf"
version = "0.1.0"
edition = "2021"
publish = false

[dependencies]
chrono = { version = "0.4", default-features = false, features = ["std"] }
num-integer = { version = "0.1", default-features = false }
serde = "1"

[dev-dependencies]
serde_test = "1"
