[package]
name = "expressing"
version = "0.1.0"
edition = "2021"
publish = false

[dependencies]
bcrypt = "*"
jsonwebtoken = "*"
serde = { version = "*", features = ["derive"] }
serde_json = "*"
