[package]
name = "edgeflow"
version = "0.1.0"
edition = "2021"
publish = false

[dependencies]
rand = "=0.9.5"
anyhow = "=1.0.104"
async-trait = "=0.1.92"
axum = "=0.8.9"
bytemuck = "=1.25.2"
bytes = "=1.12.1"
futures = "=0.3.34"
http-body-util = "=0.1.5"
hyper = { version = "=1.12.0", features = ["server", "http1"] }
hyper-util = { version = "=0.1.21", features = ["tokio"] }
image = { version = "=0.25.10", default-features = false, features = ["png", "jpeg"] }
k8s-openapi = { version = "=0.25.0", features = ["latest"] }
kube = { version = "=1.1.0", default-features = false, features = ["client", "runtime"] }
reqwest = { version = "=0.12.28", default-features = false, features = ["json"] }
serde = { version = "=1.0.229", features = ["derive"] }
serde_json = "=1.0.154"
tokio = { version = "=1.54.1", features = ["rt-multi-thread", "macros", "time", "signal", "sync", "net", "fs"] }
tokio-util = { version = "=0.7.20", features = ["io"] }
tower-http = { version = "=0.6.11", features = ["cors", "fs", "trace"] }
tracing = "=0.1.44"
tracing-subscriber = { version = "=0.3.23", features = ["env-filter", "json"] }
chrono = "=0.4.45"
