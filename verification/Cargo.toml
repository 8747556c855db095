[package]
name = "pkglock_lib"
version = "0.1.0"
edition = "2021"
publish = false

[dependencies]
regex = "=1.13.1"
serde_json = { version = "=1.0.154", features = ["preserve_order"] }
