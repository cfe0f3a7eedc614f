[package]
name = "caliber"
version = "0.1.0"
edition = "2021"
publish = false

[dependencies]
postcard = { version = "1", default-features = false, features = ["alloc"] }
serde = { version = "1", features = ["derive"] }
serde_json = "1"
