[package]
name = "adventure"
version = "0.1.0"
edition = "2021"
publish = false

[dependencies]
actix-web = "*"
actix-files = "*"
serde = { version = "*", features = ["derive"] }
serde_json = "*"
