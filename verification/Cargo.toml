[package]
name = "vpn_bot"
version = "0.1.0"
edition = "2021"
publish = false

[dependencies]
anyhow = "=1.0.104"
axum = "=0.8.9"
base64 = "=0.22.1"
chrono = { version = "=0.4.45", default-features = false, features = ["alloc", "clock", "std"] }
dotenvy = "=0.15.7"
hex = "=0.4.3"
hmac = "=0.12.1"
image = { version = "=0.25.10", default-features = false, features = ["png"] }
log = "=0.4.35"
pretty_env_logger = "=0.5.0"
qrcode = { version = "=0.14.1", default-features = false, features = ["image"] }
reqwest = { version = "=0.12.28", default-features = false, features = ["cookies", "json", "rustls-tls"] }
rusqlite = { version = "=0.41.1", features = ["bundled"] }
serde = { version = "=1.0.229", features = ["derive"] }
serde_json = "=1.0.154"
sha2 = "=0.10.9"
# Used by teloxide alone; 0.1.2 asks for a newer compiler.
takecell = "=0.1.1"
teloxide = { version = "=0.17.0", default-features = false, features = ["macros", "rustls", "ctrlc_handler"] }
tokio = { version = "=1.54.1", features = ["macros", "rt-multi-thread", "time", "net", "sync"] }
url = "=2.5.8"
urlencoding = "=2.1.3"
uuid = { version = "=1.29.0", features = ["v4"] }
