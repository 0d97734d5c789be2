[package]
name = "link_moderator"
version = "0.1.0"
edition = "2021"
publish = false

[dependencies]
hex = "=0.4.3"
hmac = "=0.12.1"
sha2 = "=0.10.9"
regex = "=1.13.1"
serde = { version = "=1.0.229", features = ["derive"] }
serde_json = "=1.0.154"
url = "=2.5.8"
dotenvy = "=0.15.7"
jsonwebtoken = "9"
octocrab = "=0.40.0"
rocket = "=0.5.2"
