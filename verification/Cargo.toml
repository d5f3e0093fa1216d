[package]
name = "anor_storage"
version = "0.1.0"
edition = "2021"
publish = false

[dependencies]
bincode = "=2.0.0-rc.3"
bincode_derive = "=2.0.0-rc.3"
uuid = { version = "=1.29.0", features = ["v4"] }
fs2 = "=0.4.3"
serde_yaml = "=0.9.34"
tracing = "=0.1.44"

[dev-dependencies]
regex = "=1.13.1"
