[package]
name = "soroscope_core"
version = "0.1.0"
edition = "2021"
publish = false

[dependencies]
axum = "=0.7.9"
base64 = "=0.22.1"
chrono = { version = "=0.4.45", features = ["serde"] }
hex = "=0.4.3"
hmac = "=0.12.1"
prometheus = "=0.13.4"
prost = "=0.13.5"
redis = { version = "=0.24.1", features = ["tokio-comp", "script"] }
rustls-pemfile = "=2.2.0"
serde = { version = "=1.0.229", features = ["derive"] }
serde_json = "=1.0.154"
sha2 = "=0.10.9"
tokio = { version = "=1.54.1", features = ["full"] }
tokio-stream = { version = "=0.1.19", features = ["sync"] }
tonic = { version = "=0.12.3", features = ["tls"] }
tracing = "=0.1.44"
tracing-subscriber = { version = "=0.3.23", features = ["env-filter", "json"] }
uuid = { version = "=1.29.0", features = ["v4"] }

[dev-dependencies]
rcgen = "=0.13.2"
