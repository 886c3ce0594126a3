[package]
name = "khonsu"
version = "0.1.0"
edition = "2021"
publish = false

[dependencies]
regex = "=1.13.1"
clap = "=4.6.7"
env_logger = "=0.11.11"
log = "=0.4.34"
toml = "=1.1.7"
serde = { version = "=1.0.229", features = ["derive"] }
serde_derive = "=1.0.229"
reqwest = { version = "=0.12.28", default-features = false, features = ["blocking"] }
cloudflare = { version = "=0.14.0", default-features = false, features = ["blocking"] }
