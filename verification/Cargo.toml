[package]
name = "audio_snip"
version = "0.1.0"
edition = "2021"
publish = false

[dependencies]
axum = { version = "0.8", default-features = false, features = ["http1", "query", "tokio"] }
log = "0.4"
serde = { version = "1", features = ["derive"] }
tauri = { version = "2", default-features = false }
tauri-plugin-log = { version = "2", default-features = false }
thiserror = "2"
tokio = { version = "1", features = ["fs", "io-util", "macros", "net", "process", "rt-multi-thread", "sync", "time"] }
tokio-util = { version = "0.7", features = ["io"] }
