[package]
name = "tenet"
version = "0.1.0"
edition = "2021"
publish = false

[dependencies]
axum = { version = "0.7", features = ["ws", "multipart"] }
axum-extra = { version = "0.9", features = ["multipart"] }
base64 = "0.22"
chacha20poly1305 = "0.10"
clap = { version = "4", features = ["derive", "env"] }
hex = "0.4"
qrcode = "0.14"
rand = "0.8"
rand_chacha = "0.3"
rand_distr = "0.4"
rusqlite = { version = "0.31", features = ["bundled"] }
serde = { version = "1", features = ["derive"] }
serde_json = "1"
sha2 = "0.10"
tokio = { version = "1", features = ["full"] }
ureq = { version = "2", features = ["json"] }
