[package]
name = "rusty_weather"
version = "0.1.0"
edition = "2021"
publish = false

[dependencies]
clap = { version = "*", features = ["derive"] }
tokio = { version = "*", features = ["rt-multi-thread", "macros"] }
reqwest = { version = "*", default-features = false, features = ["rustls-tls"] }
axum = "*"
tower-http = { version = "*", features = ["cors", "fs"] }
lingua-i18n-rs = "*"
dotenv = "*"
