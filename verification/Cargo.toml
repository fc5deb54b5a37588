[package]
name = "deskpet"
version = "0.1.0"
edition = "2021"
publish = false

[dependencies]
aes-gcm = "=0.10.3"
hkdf = "=0.12.4"
sha2 = "=0.10.9"
rand = "=0.8.8"
rand_distr = "=0.4.3"
chrono = { version = "=0.4.45", features = ["serde"] }
uuid = { version = "=1.29.1", features = ["v4"] }
serde = { version = "=1.0.229", features = ["derive"] }
serde_json = "=1.0.154"
base64 = "=0.22.1"
png = "=0.17.16"
encoding_rs = "=0.8.44"
zip = { version = "=2.6.1", default-features = false, features = ["deflate"] }
rusqlite = { version = "=0.31.0", features = ["bundled"] }
dirs = "=5.0.1"
thiserror = "=1.0.69"
tracing = "=0.1.44"
urlencoding = "=2.1.3"
once_cell = "=1.21.4"
tokio = { version = "=1.54.1", features = ["rt-multi-thread", "macros", "time"] }
tokio-stream = "=0.1.19"
reqwest = { version = "=0.12.28", default-features = false, features = ["json", "rustls-tls", "multipart", "stream"] }
edge-tts-rust = "=0.1.7"
