[package]
name = "hiflac"
version = "0.1.0"
edition = "2021"
publish = false

[dependencies]
base64 = "*"
serde = { version = "*", features = ["derive"] }
serde_json = "*"
reqwest = { version = "*", default-features = false, features = ["rustls-tls", "json"] }
tokio = { version = "*", features = ["rt-multi-thread", "sync", "macros", "time"] }
symphonia = { version = "*", features = ["isomp4", "aac"] }
rubato = "*"
dirs = "*"
