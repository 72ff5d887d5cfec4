[package]
name = "servicenow_rs"
version = "0.2.1"
edition = "2021"
publish = false

[dependencies]
serde_json = "1"
url = "2"
serde = { version = "1", features = ["derive"] }
reqwest = { version = "0.12", default-features = false, features = ["json", "cookies", "rustls-tls"] }
tokio = { version = "1", features = ["full"] }
async-trait = "0.1"
futures = "0.3"
thiserror = "2"
toml = "0.8"
tracing = "0.1"
zeroize = "1"
base64 = "0.22"
