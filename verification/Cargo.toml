[package]
name = "mynote"
version = "0.1.0"
edition = "2021"
publish = false

[dependencies]
chrono = { version = "=0.4.45", default-features = false, features = ["clock", "std"] }
rusqlite = { version = "=0.32.1", default-features = false, features = ["bundled"] }
serde = { version = "=1.0.229", features = ["derive"] }
