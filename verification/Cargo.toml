[package]
name = "lattice_engine"
version = "0.1.0"
edition = "2021"
publish = false

[dependencies]
crc32fast = "1"
serde = { version = "1", features = ["derive"] }
bincode = "1"
glam = "*"

[dev-dependencies]
serde_json = "1"
