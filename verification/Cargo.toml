[package]
name = "quickpulse_agent"
version = "0.1.0"
edition = "2021"
publish = false

[dependencies]
chrono = "0.4"
uuid = { version = "1", features = ["v4"] }
sysinfo = "*"
serde = { version = "1", features = ["derive"] }
serde_json = "1"
tokio = { version = "1", features = ["rt-multi-thread", "macros", "time", "net"] }
reqwest = { version = "*", default-features = false }
axum = "*"
dotenvy = "*"
tower = "*"
tower-http = { version = "*", features = ["decompression-gzip"] }
