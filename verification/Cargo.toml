[package]
name = "voxminutes"
version = "0.1.0"
edition = "2021"
publish = false

[dependencies]
serde = { version = "1", features = ["derive"] }
serde_json = "1"
chrono = "0.4"
uuid = { version = "1", features = ["v4"] }
dirs = "5"
log = "0.4"
tokio = { version = "1", features = ["rt-multi-thread", "fs", "io-util", "sync"] }
reqwest = { version = "0.12", default-features = false, features = ["stream", "rustls-tls"] }
futures-util = "0.3"
tar = "0.4"
flate2 = "1"
bzip2 = "0.4"
zip = { version = "2", default-features = false, features = ["deflate"] }
sqlx = { version = "0.8", default-features = false, features = ["runtime-tokio", "sqlite", "chrono"] }
