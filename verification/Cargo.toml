[package]
name = "ludex"
version = "0.9.5"
edition = "2021"
publish = false

[dependencies]
shlex = "1"
chrono = "0.4"
semver = "1"
sha2 = "0.10"
base64 = "0.22"
serde = { version = "1", features = ["derive"] }
serde_json = "1"
uuid = { version = "1", features = ["v4"] }
rusqlite = { version = "0.31", features = ["bundled"] }
reqwest = { version = "0.12", default-features = false, features = ["blocking", "json", "rustls-tls"] }
sysinfo = "0.30"
tracing = "0.1"
tracing-subscriber = "0.3"
winreg = "0.52"
