[package]
name = "vesper"
version = "0.1.0"
edition = "2021"
publish = false

[dependencies]
uuid = { version = "1", features = ["v4"] }
serde = { version = "1", features = ["derive"] }
serde_json = "1"
tokio = { version = "1", features = ["rt-multi-thread", "net", "sync", "time", "io-util", "macros", "signal"] }
dirs = "6"
async-ssh2-lite = { version = "0.5", features = ["tokio"] }
tauri = { version = "2", default-features = false }
tauri-plugin-process = { version = "2", default-features = false }
