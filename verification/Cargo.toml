[package]
name = "hearth"
version = "0.1.0"
edition = "2021"
publish = false

[dependencies]
anyhow = "1"
base64 = "0.22"
chacha20poly1305 = "*"
crypto_box = "0.9"
ed25519-dalek = "*"
iroh = { version = "*", default-features = false, features = ["tls-ring"] }
keyring = { version = "3", default-features = false }
rand = "0.10"
reqwest = { version = "*", default-features = false, features = ["json"] }
rusqlite = { version = "*", features = ["bundled"] }
serde = { version = "1", features = ["derive"] }
serde_json = "1"
sha2 = "*"
thiserror = "2"
tokio = { version = "1", features = ["rt-multi-thread", "macros", "sync", "time", "io-util"] }
uuid = { version = "1", features = ["v4", "serde"] }
