[package]
name = "no_nonsense_notes_core"
version = "0.1.0"
edition = "2021"
publish = false

[dependencies]
base64 = "0.22"
chrono = "0.4"
loro = "1"
rusqlite = "*"
serde = { version = "1", features = ["derive"] }
sha2 = "0.10"
thiserror = "2"
tungstenite = "*"
uniffi = "*"
uuid = { version = "1", features = ["v7"] }
