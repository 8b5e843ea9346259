[package]
name = "lazy_dns"
version = "0.1.0"
edition = "2021"
publish = false

[dependencies]
chrono = "*"
hickory-proto = "=0.24.4"
serde_json = "*"
serde = { version = "*", features = ["derive"] }
toml = "*"
tokio = { version = "*", features = ["rt-multi-thread", "macros", "net", "io-util", "time", "sync"] }
dirs = "*"
dotenvy = "*"
