[package]
name = "rss_cli"
version = "0.1.0"
edition = "2021"
publish = false

[dependencies]
base64 = "0.22"
chrono = { version = "0.4", features = ["serde"] }
clap = { version = "4", features = ["derive", "env"] }
directories = "*"
feed-rs = "2"
futures = "0.3"
html2text = "*"
opml = "1"
reqwest = { version = "0.12", default-features = false, features = ["gzip", "rustls-tls"] }
rmcp = { version = "*", features = ["server", "macros", "transport-io", "schemars"] }
schemars = "1"
serde = { version = "1", features = ["derive"] }
serde_json = { version = "1", features = ["preserve_order"] }
sha2 = "*"
thiserror = "2"
tl = "0.7"
tokio = { version = "1", features = ["full"] }
tracing = "0.1"
tracing-subscriber = { version = "0.3", features = ["env-filter"] }
url = "2"
