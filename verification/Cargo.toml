[package]
name = "djv"
version = "0.1.0"
edition = "2021"
publish = false

[dependencies]
urlencoding = "2"
url = "2"
reqwest = { version = "0.12", default-features = false, features = ["json"] }
tokio = { version = "1", features = ["rt-multi-thread", "macros", "time"] }
serde = { version = "1", features = ["derive"] }
serde_json = "1"
chrono = { version = "0.4", default-features = false, features = ["std", "clock", "serde"] }
