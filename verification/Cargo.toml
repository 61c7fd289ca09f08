[package]
name = "upsclr-server"
version = "0.1.0"
edition = "2021"
publish = false

[dependencies]
axum = { version = "=0.8.9", features = ["multipart"] }
axum-extra = { version = "=0.10.3", features = ["typed-header"] }
headers = "=0.4.2"
tokio = { version = "=1.54.1", features = ["full"] }
tower-http = { version = "=0.6.11", features = ["trace", "cors"] }
tracing = "=0.1.44"
tracing-subscriber = "=0.3.23"
clap = { version = "=4.6.7", features = ["derive", "env"] }
socket2 = "=0.5.10"
serde = { version = "=1.0.229", features = ["derive"] }
serde_json = "=1.0.154"
libloading = "=0.8.9"
uuid = { version = "=1.29.0", features = ["v4", "serde"] }
image = { version = "=0.25.10", default-features = false, features = ["png", "jpeg", "webp", "bmp", "tga", "qoi", "dds"] }
mime = "=0.3.17"
byteorder = "=1.5.0"
