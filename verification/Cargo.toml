[package]
name = "fntype"
version = "0.1.0"
edition = "2021"
publish = false

[dependencies]
anyhow = "1"
arboard = { version = "3", default-features = false }
core-foundation = "0.10"
core-graphics = "0.24"
cpal = "0.15"
dirs = "*"
foreign-types = "0.5"
futures = "0.3"
libc = "0.2"
objc2 = "0.6"
objc2-core-audio = "0.3"
percent-encoding = "2.3"
security-framework = "3"
serde = { version = "1", features = ["derive"] }
serde_json = "1"
tokio = { version = "1", features = ["rt", "sync", "time", "macros", "net"] }
tokio-tungstenite = { version = "*", default-features = false, features = ["connect", "rustls-tls-webpki-roots"] }
tray-icon = { version = "*", default-features = false }
