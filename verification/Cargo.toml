[package]
name = "redrum_bot"
version = "0.1.0"
edition = "2021"
publish = false
rust-version = "1.95"

[dependencies]
image = { version = "=0.25.10", default-features = false, features = ["png"] }
qrcode = { version = "=0.14.1", default-features = false, features = ["image"] }
serde = { version = "=1.0.229", features = ["derive"] }
serde_json = "=1.0.154"
teloxide = { version = "=0.13.0", default-features = false, features = ["macros", "rustls", "ctrlc_handler"] }
takecell = "=0.1.1"
tokio = { version = "=1.54.1", features = ["full"] }
reqwest = { version = "=0.12.28", default-features = false }
dptree = "=0.3.0"
log = "=0.4.35"
pretty_env_logger = "=0.5.0"
