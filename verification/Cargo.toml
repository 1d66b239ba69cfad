[package]
name = "tallii"
version = "0.1.0"
edition = "2021"
publish = false

[dependencies]
jsonwebtoken = "7"
serde_json = "*"
rust-argon2 = "*"
validator = "0.16"
chrono = "*"
