[package]
name = "stackql_deploy"
version = "0.1.0"
edition = "2021"
publish = false

[dependencies]
base64 = "0.22"
chrono = "0.4"
clap = "4"
colored = "2"
env_logger = "0.11"
indicatif = "0.17"
log = "0.4"
once_cell = "1"
pgwire-lite = "*"
regex = "1"
reqwest = { version = "0.12", default-features = false, features = ["blocking"] }
serde = { version = "1", features = ["derive"] }
serde_json = "1"
serde_yaml = "0.9"
tera = "1"
unicode-width = "*"
uuid = { version = "1", features = ["v4"] }
zip = { version = "*", default-features = false, features = ["deflate"] }
