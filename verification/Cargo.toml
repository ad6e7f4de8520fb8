[package]
name = "keeper_todo"
version = "0.1.0"
edition = "2021"
publish = false

[dependencies]
anyhow = "=1.0.104"
chrono = { version = "=0.4.45", features = ["serde"] }
image = { version = "=0.24.9", default-features = false, features = ["png"] }
imageproc = { version = "=0.23.1", default-features = false }
ron = "=0.8.1"
rusttype = "=0.9.3"
serde = { version = "=1.0.229", features = ["derive"] }
