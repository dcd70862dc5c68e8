[package]
name = "docvis_mail"
version = "0.1.0"
edition = "2021"
publish = false

[dependencies]
base64 = "0.22"
chrono = "0.4"
dirs-next = "2"
image = { version = "0.24", default-features = false, features = ["png"] }
imap = "2.4"
keyring = { version = "2", default-features = false, features = ["platform-windows"] }
lettre = { version = "0.11", default-features = false, features = ["builder", "smtp-transport", "hostname", "native-tls"] }
mailparse = "0.15"
native-tls = "0.2"
rusqlite = { version = "0.31", features = ["bundled", "functions"] }
serde = { version = "1", features = ["derive"] }
serde_json = "1"
sevenz-rust = { version = "0.6", default-features = false }
zip = { version = "0.6", default-features = false, features = ["deflate"] }
