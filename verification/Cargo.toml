[package]
name = "superzed_session"
version = "0.1.0"
edition = "2021"
publish = false

[dependencies]
anyhow = "1"
chrono = "0.4"
log = "0.4"
parking_lot = "0.12"
serde = { version = "1", features = ["derive"] }
serde_json = "1"
shellexpand = "2.1"
thiserror = "2"
url = "2"
urlencoding = "2.1"
uuid = { version = "1", features = ["v4"] }
