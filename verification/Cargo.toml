[package]
name = "rust_project"
version = "0.1.0"
edition = "2021"
publish = false

[dependencies]
base64 = "*"
serde = { version = "*", features = ["derive"] }
toml = "*"
thiserror = "*"
rand = "*"
