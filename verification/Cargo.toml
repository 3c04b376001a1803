[package]
name = "cargo-sleek"
version = "1.1.0"
edition = "2021"
publish = false

[dependencies]
anyhow = "1"
chrono = { version = "0.4", default-features = false, features = ["std"] }
clap = "4"
colored = "2"
serde = { version = "1", features = ["derive"] }
serde_json = "1"
