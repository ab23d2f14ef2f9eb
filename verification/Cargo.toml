[package]
name = "managesieve"
version = "0.1.0"
edition = "2021"
publish = false

[dependencies]
base64 = "*"
itoa = "*"
futures = "*"
futures-rustls = "*"
rustls-platform-verifier = "*"
tokio = { version = "*", features = ["net", "fs", "io-util", "rt", "macros"] }
tokio-util = { version = "*", features = ["compat"] }
clap = { version = "*", features = ["derive"] }
color-eyre = "*"
rpassword = "*"
tracing = "*"
tracing-subscriber = { version = "*", features = ["env-filter"] }
thiserror = "*"

[dev-dependencies]
sasl = "*"
winnow = "*"
