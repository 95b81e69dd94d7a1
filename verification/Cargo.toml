[package]
name = "screenshare"
version = "0.1.0"
edition = "2021"
publish = false

[dependencies]
anyhow = "1"
axum = { version = "0.7", features = ["ws"] }
bincode = { version = "=2.0.1", features = ["serde"] }
core-graphics = "0.23"
ffmpeg-next = "7"
futures-util = "0.3"
hex = "=0.4.3"
hmac = "0.12"
libc = "0.2"
pollster = "0.3"
quinn = { version = "0.11", default-features = false, features = ["runtime-tokio", "rustls-ring"] }
rand = "=0.8.8"
rcgen = "=0.13.2"
rustls = { version = "0.23", default-features = false, features = ["logging", "ring", "std", "tls12"] }
rustls-pki-types = "1"
serde = { version = "1", features = ["derive"] }
serde_json = "1"
sha2 = "=0.10.9"
tokio = { version = "1", features = ["full"] }
tokio-tungstenite = { version = "=0.23.1", features = ["rustls-tls-webpki-roots"] }
wgpu = "22"
winit = "0.30"
