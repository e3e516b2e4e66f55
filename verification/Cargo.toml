[package]
name = "pud"
version = "0.1.0"
edition = "2021"
publish = false

[dependencies]
uuid = { version = "1", features = ["v4"] }
rand = "0.8"
clap = { version = "4", features = ["derive"] }
serde = { version = "1", features = ["derive"] }
toml = "0.8"
dirs2 = "3"
anyhow = "1"
thiserror = "1"
time = { version = "0.3", features = ["std", "formatting"] }
tracing = "0.1"
tracing-subscriber = "0.3"
