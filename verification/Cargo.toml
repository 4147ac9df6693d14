[package]
name = "fhe_pack"
version = "0.1.0"
edition = "2021"
publish = false

[dependencies]
bincode = "1"
rayon = "=1.12.0"
serde = { version = "1", features = ["derive"] }
