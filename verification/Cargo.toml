[package]
name = "mail_triage"
version = "0.1.0"
edition = "2021"
publish = false

[dependencies]
mailparse = "*"
sha2 = "*"
url = "*"
regex = "*"
serde = { version = "*", features = ["derive"] }
serde_json = "*"
chrono = "*"
