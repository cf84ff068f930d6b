[package]
name = "monitord"
version = "0.1.0"
edition = "2021"
publish = false

[dependencies]
tokio = { version = "1", features = ["full"] }
axum = "0.7"
reqwest = { version = "0.11", default-features = false, features = ["rustls-tls"] }
serde = { version = "1", features = ["derive"] }
serde_yaml = "0.9"
thiserror = "1"
clap = { version = "4", features = ["derive"] }
prometheus = "0.13"
humantime = "2"
sysinfo = "0.29"
teloxide = { version = "0.12", default-features = false, features = ["macros", "ctrlc_handler", "rustls"] }
dptree = "0.3"
takecell = "=0.1.1"
tracing = "0.1"
tracing-subscriber = { version = "0.3", features = ["env-filter"] }
