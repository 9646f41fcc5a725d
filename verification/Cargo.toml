[package]
name = "cathedral_forge"
version = "0.1.0"
edition = "2021"
publish = false

[dependencies]
sha2 = "0.10"
serde = { version = "1", features = ["derive"] }
serde_json = "1"
rand = "0.8"
glam = "0.27"
rusqlite = { version = "0.31", features = ["bundled"] }
kira = "0.8"

[dev-dependencies]
png = "0.17"
crc32fast = "1"
