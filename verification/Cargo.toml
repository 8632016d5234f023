[package]
name = "yanos_backend"
version = "0.1.0"
edition = "2021"
publish = false

[dependencies]
base64 = "=0.22.1"
rand = "=0.8.8"
axum = { version = "=0.8.9", features = ["ws", "macros"] }
axum_csrf = { version = "=0.12.0", features = ["layer"] }
axum-server = { version = "=0.7.3", features = ["tls-rustls"] }
tokio = { version = "=1.54.1", features = ["full"] }
tower-cookies = "=0.11.0"
tower-http = { version = "=0.6.11", features = ["fs"] }
tower-sessions = { version = "=0.15.0", features = ["private"] }
utoipa = { version = "=5.5.0", features = ["axum_extras"] }
utoipa-swagger-ui = { version = "=9.0.2", features = ["axum", "vendored"] }
serde = { version = "=1.0.229", features = ["derive"] }
serde_json = "=1.0.154"
time = { version = "=0.3.55", features = ["formatting"] }
uuid = { version = "=1.29.1", features = ["v4"] }
tracing = "=0.1.44"
tracing-subscriber = { version = "=0.3.23", features = ["env-filter", "chrono"] }
opentelemetry = "=0.33.1"
opentelemetry-otlp = { version = "=0.33.1", features = ["grpc-tonic"] }
opentelemetry_sdk = "=0.33.1"
tracing-opentelemetry = "=0.34.0"
rcgen = "=0.14.10"
rustls = { version = "=0.23.46", features = ["ring"] }
notify = "=8.2.1"
portable-pty = "=0.9.0"
pam-sys = "=0.5.6"
libc = "=0.2.191"
chrono = "=0.4.45"
futures = "=0.3.34"
async-trait = "=0.1.92"
