[package]
name = "dotnet_lens"
version = "0.1.0"
edition = "2021"
publish = false

[dependencies]
spex = "*"
serde = { version = "1", features = ["derive"] }
thiserror = "1"
