[package]
name = "labolabo_app"
version = "0.1.0"
edition = "2021"
publish = false

[dependencies]
serde_json = "1"
unicode-width = "0.2"
sys-locale = "0.3"
chrono = { version = "0.4", default-features = false, features = ["alloc"] }
