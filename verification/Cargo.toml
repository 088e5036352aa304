[package]
name = "ncmdump"
version = "0.1.0"
edition = "2021"
publish = false

[dependencies]
aes = "0.8"
cipher = { version = "0.4", features = ["alloc", "block-padding"] }
base64 = "*"
clap = { version = "4", features = ["derive"] }
anyhow = "1"
thiserror = "*"
