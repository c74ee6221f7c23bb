[package]
name = "minerscan"
version = "0.6.8"
edition = "2021"
publish = false

[dependencies]
anyhow = "1"
base64 = "0.22"
chrono = "0.4"
global-hotkey = "*"
image = { version = "0.25", default-features = false }
serde = { version = "1", features = ["derive"] }
serde_json = "1"
ureq = "3"
zip = { version = "*", default-features = false, features = ["deflate"] }
