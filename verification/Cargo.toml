[package]
name = "fedi_sleuth"
version = "0.1.0"
edition = "2021"
publish = false

[dependencies]
chrono = "*"
urlencoding = "*"
reqwest = { version = "*", default-features = false, features = ["json", "stream"] }
tokio = { version = "*", features = ["rt-multi-thread", "macros", "time", "fs", "io-util", "sync"] }
serde = { version = "*", features = ["derive"] }
serde_json = "*"
futures-util = "*"
