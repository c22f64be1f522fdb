[package]
name = "scuffle_media"
version = "0.1.0"
edition = "2021"
publish = false

[dependencies]
bytes = "=1.12.1"
byteorder = "=1.5.0"
thiserror = "=2.0.21"
anyhow = "=1.0.104"
serde = { version = "=1.0.229", features = ["derive"] }
bytestring = "1"
