[package]
name = "deskremote"
version = "0.1.0"
edition = "2021"
publish = false

[dependencies]
tokio = { version = "1", default-features = false, features = ["sync", "rt-multi-thread", "net", "time", "io-util", "macros"] }
tokio-tungstenite = "0.24"
futures-util = "0.3"
uuid = { version = "1", features = ["v4"] }
qrcode = "0.14"
base64 = "0.22"
enigo = "0.2"
serde_json = "1"
