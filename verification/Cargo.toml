[package]
name = "neighborhood_lib"
version = "0.1.0"
edition = "2021"
publish = false

[dependencies]
serde = { version = "=1.0.229", features = ["derive"] }
serde_cbor = "=0.9.0"
sha1 = "=0.6.0"
