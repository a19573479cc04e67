[package]
name = "voxnote_core"
version = "0.1.0"
edition = "2021"
publish = false

[dependencies]
serde = { version = "1", features = ["derive"] }
serde_json = "1"
toml = "0.8"
uuid = { version = "1", features = ["v4"] }
chrono = { version = "0.4", features = ["serde"] }
sha2 = "0.10"
hex = "0.4"
argon2 = "0.5"
chacha20poly1305 = "0.10"
secrecy = "0.10"
zeroize = "1"
yrs = "0.21"
crossbeam = "0.8"
tokio = { version = "1", features = ["full"] }
tokio-tungstenite = "0.24"
futures-util = "0.3"
async-trait = "0.1"
reqwest = { version = "0.12", default-features = false, features = ["json", "stream", "rustls-tls", "multipart"] }
rusqlite = { version = "0.31", features = ["bundled"] }
dirs = "5"
rubato = "0.15"
rustfft = "6"
thiserror = "1"
tracing = "0.1"
cpal = "0.15"
whisper-rs = "*"
llama-cpp-2 = "*"
ort = "=2.0.0-rc.10"

[dev-dependencies]
tempfile = "3"
