[package]
name = "restaurant_kernel"
version = "0.1.0"
edition = "2021"
publish = false

[dependencies]
uuid = { version = "*", features = ["v4"] }
serde = { version = "*", features = ["derive"] }
serde_json = "*"
thiserror = "*"
error-stack = "*"
tokio = { version = "*", features = ["rt-multi-thread", "macros", "signal", "net"] }
axum = "*"
tower-http = { version = "*", features = ["fs"] }
tracing-subscriber = { version = "*", features = ["env-filter"] }
tracing-appender = "*"
