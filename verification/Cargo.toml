[package]
name = "jinchan_core"
version = "0.1.0"
edition = "2021"
publish = false

[dependencies]
chrono = "0.4"
serde = { version = "1", features = ["derive"] }
serde_json = "1"
uuid = { version = "1", features = ["v4"] }
once_cell = "1"
base64 = "0.22"
tokio = { version = "1", features = ["time"] }
reqwest = { version = "0.12", features = ["json"] }
rusqlite = { version = "*", features = ["bundled"] }
image = { version = "*", default-features = false, features = ["jpeg", "png"] }
