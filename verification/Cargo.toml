[package]
name = "shared_memory_backend"
version = "0.1.0"
edition = "2021"
publish = false

[dependencies]
anyhow = "1"
axum = { version = "0.7", features = ["ws"] }
chrono = "0.4"
futures-util = "0.3"
hostname = "0.4"
local-ip-address = "0.6"
mdns-sd = "0.11"
reqwest = { version = "0.12", default-features = false, features = ["json", "stream"] }
serde = { version = "1", features = ["derive"] }
serde_json = "1"
sysinfo = "0.33"
tokio = { version = "1", features = ["full"] }
uuid = { version = "1", features = ["v4"] }
which = "7"
