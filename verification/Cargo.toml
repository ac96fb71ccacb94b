[package]
name = "sim_pool"
version = "0.1.0"
edition = "2021"
publish = false

[dependencies]
axum = "*"
nalgebra = "*"
serde = { version = "*", features = ["derive"] }
serde_json = "*"
socketioxide = "*"
tokio = { version = "*", features = ["rt-multi-thread", "macros", "signal", "net"] }
tower-http = { version = "*", features = ["cors", "trace"] }
tracing = "*"
tracing-subscriber = "*"
