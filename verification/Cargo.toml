[package]
name = "onion_message_target"
version = "0.1.0"
edition = "2021"
publish = false

[dependencies]
bitcoin = "=0.29.2"
lightning = { version = "0.0.111", features = ["_test_utils"] }

[dev-dependencies]
hex = "0.4"
