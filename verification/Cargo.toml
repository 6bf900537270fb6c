[package]
name = "libfetch"
version = "0.1.0"
edition = "2021"
publish = false

[dependencies]
bytes = "1"
flate2 = "1"
futures-util = "0.3"
regex = "1"
reqwest = { version = "0.12", default-features = false, features = ["rustls-tls", "stream"] }
serde = { version = "1", features = ["derive"] }
serde_json = "1"
tar = "0.4"
tokio = { version = "1", features = ["rt", "time", "macros"] }
zip = { version = "2", default-features = false, features = ["deflate"] }
