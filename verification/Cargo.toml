[package]
name = "rfs_server"
version = "0.1.0"
edition = "2021"
publish = false

[dependencies]
salvo = "*"
serde = { version = "1", features = ["derive"] }
tokio = { version = "1", features = ["full"] }
