[package]
name = "updown_bot"
version = "0.1.0"
edition = "2021"
publish = false

[dependencies]
alloy = { version = "1.1", default-features = false, features = ["std", "signer-local"] }
anyhow = "1"
base64 = "0.21"
clap = { version = "4", default-features = false, features = ["std", "derive", "help"] }
env_logger = { version = "0.11", default-features = false }
hex = "0.4"
hmac = "0.12"
log = "0.4"
reqwest = { version = "0.12", default-features = false, features = ["json"] }
rust_decimal = { version = "1", default-features = false, features = ["std", "serde"] }
serde = { version = "1", features = ["derive"] }
serde_json = "1"
sha2 = "0.10"
tokio = { version = "1", features = ["macros", "rt-multi-thread", "sync", "time"] }
