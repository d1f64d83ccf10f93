[package]
name = "skype_rs"
version = "0.1.0"
edition = "2021"
publish = false

[dependencies]
dashmap = "6"
hex = "0.4"
serde = { version = "1", features = ["derive"] }
serde_json = "1"
sha2 = "0.10"
sqlx = { version = "0.8", default-features = false, features = ["runtime-tokio", "sqlite"] }
thiserror = "2"
tokio = { version = "1", features = ["rt-multi-thread", "macros", "net", "io-util", "sync", "time"] }
toml = "0.8"
uuid = { version = "1", features = ["v4", "serde"] }
