[package]
name = "transpo2"
version = "0.1.0"
edition = "2021"
publish = false

[dependencies]
aes-gcm = "0.9"
rand = "0.9"
crc = "3"
chrono = "0.4"
urlencoding = "2"
argon2 = "0.5"
dashmap = "6"
typenum = "1"
tokio = { version = "1", features = ["full"] }
trillium = "0.2"
trillium-tokio = "0.4"
trillium-router = "0.4"
trillium-askama = "0.3"
trillium-static = "0.4"
trillium-websockets = "0.6"
diesel = { version = "2", features = ["sqlite", "r2d2"] }
diesel_migrations = "2"
blocking = "1"
smol = "2"
smol-timeout = "0.6"
futures-util = "0.3"
async-tungstenite = { version = "0.29", features = ["tokio-runtime"] }
tungstenite = "0.26"
reqwest = { version = "0.12", default-features = false, features = ["stream"] }
