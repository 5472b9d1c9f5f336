[package]
name = "auth_core"
version = "0.1.0"
edition = "2021"
publish = false

[dependencies]
password-auth = "*"
tokio = { version = "*", features = ["rt-multi-thread", "macros", "time", "signal", "net"] }
axum = "*"
tokio-postgres = "*"
deadpool-postgres = "*"
serde = { version = "*", features = ["derive"] }
rmp-serde = "*"
uuid = { version = "*", features = ["v4"] }
anyhow = "*"
thiserror = "*"
