[package]
name = "taosx"
version = "0.1.5"
edition = "2021"
publish = false

[dependencies]
chrono = "0.4"
futures-core = "0.3"
futures-util = { version = "0.3", features = ["sink"] }
reqwest = { version = "0.12", default-features = false, features = ["rustls-tls"] }
serde = { version = "1", features = ["derive"] }
serde_json = "1"
thiserror = "2"
tokio = { version = "1", features = ["macros", "net", "rt-multi-thread", "sync", "time"] }
tokio-tungstenite = { version = "0.29", features = ["rustls-tls-webpki-roots"] }
toml = "0.9"
tracing = "0.1"
url = "2"
