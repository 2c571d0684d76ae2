[package]
name = "piggyback"
version = "0.1.0"
edition = "2021"
publish = false

[dependencies]
aes-gcm = "0.10"
hex = "0.4"
rand = "0.8"
base64 = "0.22"
serde = { version = "1", features = ["derive"] }
serde_json = "1"
dirs = "5"
tokio = { version = "1", features = ["process", "sync", "time", "rt", "macros"] }
tiny_http = "0.12"
keyring = { version = "3", features = ["linux-native"] }
rustfft = "6"
ndarray = "0.16"
webrtc-vad = "0.4"
sqlx = { version = "0.8", default-features = false, features = ["sqlite", "runtime-tokio", "macros"] }
image = { version = "0.25", default-features = false, features = ["jpeg", "png"] }
