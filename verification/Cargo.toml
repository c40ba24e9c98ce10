[package]
name = "clipwallet"
version = "0.1.0"
edition = "2021"
publish = false

[dependencies]
aes-gcm = "0.10"
anyhow = "1"
arboard = "3"
chrono = { version = "0.4", features = ["serde"] }
clap = { version = "4", features = ["derive"] }
core-foundation = "0.9"
core-graphics = "0.23"
crc32fast = "1"
ctrlc = { version = "3", features = ["termination"] }
dirs = "5"
hex = "0.4"
image = { version = "0.24", default-features = false, features = ["png", "jpeg", "tiff", "gif", "bmp"] }
infer = "0.15"
keyring = "2"
objc = "0.2"
rmp-serde = "1"
serde = { version = "1", features = ["derive"] }
tokio = { version = "1", features = ["rt-multi-thread", "macros", "sync", "time"] }
toml = "0.8"
tracing = "0.1"
tracing-subscriber = { version = "0.3", features = ["env-filter"] }
