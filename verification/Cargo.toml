[package]
name = "p2p-signaling"
version = "0.1.0"
edition = "2021"
publish = false

[dependencies]
anyhow = "1"
base64 = "0.22"
eframe = { version = "*", default-features = false, features = ["default_fonts", "glow", "x11", "wayland"] }
futures-util = "0.3"
if-addrs = "*"
image = { version = "0.25", default-features = false, features = ["png"] }
quinn = "0.11"
rcgen = "0.14"
rfd = "*"
serde = { version = "1", features = ["derive"] }
serde_json = "1"
sha2 = "0.10"
tokio = { version = "1", features = ["fs", "io-util", "macros", "net", "rt", "rt-multi-thread", "sync", "time"] }
tokio-tungstenite = { version = "0.24", features = ["rustls-tls-webpki-roots"] }
uuid = { version = "1", features = ["v4"] }
