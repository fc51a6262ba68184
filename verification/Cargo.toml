[package]
name = "pastify"
version = "0.1.0"
edition = "2021"
publish = false

[dependencies]
base64 = "*"
chrono = "*"
image = { version = "*", default-features = false, features = ["png"] }
arboard = "*"
rusqlite = { version = "*", features = ["bundled"] }
serde = { version = "*", features = ["derive"] }
serde_json = "*"
thiserror = "*"
parking_lot = "*"
once_cell = "*"
log = "*"
simplelog = "*"
