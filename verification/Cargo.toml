[package]
name = "prometheus_proxy_server"
version = "3.0.1"
edition = "2021"
publish = false

[dependencies]
axum = { version = "0.8", features = ["ws"] }
clap = { version = "4", features = ["derive"] }
futures = "0.3"
futures-util = { version = "0.3", features = ["sink"] }
log = "0.4"
rand = "0.8"
redis = "0.22"
rustls = { version = "0.23", default-features = false, features = ["ring", "std", "tls12", "logging"] }
sentry = { version = "0.42", default-features = false, features = ["backtrace", "contexts", "panic", "reqwest", "rustls"] }
serde = { version = "1", features = ["derive"] }
serde_json = "1"
serde_valid = "0.25"
tokio = { version = "1", features = ["macros", "net", "rt-multi-thread", "signal", "sync", "time"] }
tokio-stream = "0.1"
tokio-util = { version = "0.7", features = ["rt"] }
tower-http = { version = "0.6", features = ["cors", "trace"] }
tracing = "0.1"
tracing-subscriber = { version = "0.3", features = ["env-filter"] }
uuid = { version = "1", features = ["v4"] }
warp = "0.3"
