[package]
name = "pty_sessions"
version = "0.1.0"
edition = "2021"
publish = false

[dependencies]
portable-pty = "*"
uuid = { version = "*", features = ["v4"] }
log = "*"
serde = { version = "*", features = ["derive"] }
specta = "*"
tauri = { version = "*", default-features = false }

[dev-dependencies]
regex = "*"
