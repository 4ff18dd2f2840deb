[package]
name = "rcon_webhook"
version = "0.1.0"
edition = "2021"
publish = false

[dependencies]
sha2 = "0.10"
getrandom = "0.2"
serde = { version = "1", features = ["derive"] }
toml = "0.8"
ehttpd = "*"
