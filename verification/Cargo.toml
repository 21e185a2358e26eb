[package]
name = "ipa_catalog"
version = "0.1.0"
edition = "2021"
publish = false

[dependencies]
zip = { version = "0.6", default-features = false, features = ["deflate"] }
plist = "1"
chrono = { version = "0.4", default-features = false, features = ["std", "serde"] }
base64 = "0.13"
serde = { version = "1", features = ["derive"] }
axum = "0.2"
tokio = { version = "1", features = ["full"] }
tokio-util = { version = "0.6", features = ["io"] }
structopt = "0.3"
thiserror = "1"
