[package]
name = "rusty_chat"
version = "0.1.0"
edition = "2021"
publish = false

[dependencies]
uuid = { version = "*", features = ["v4"] }
chrono = "*"
semver = "*"
serde = { version = "*", features = ["derive"] }
toml = "*"
futures = "*"
