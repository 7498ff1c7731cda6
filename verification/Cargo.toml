[package]
name = "voice_service"
version = "0.1.0"
edition = "2021"
publish = false

[dependencies]
serde = { version = "1", features = ["derive"] }
serde_json = "1"
base64 = "0.13"
uuid = { version = "1", features = ["v4", "serde"] }
anyhow = "1"
thiserror = "1"
axum = { version = "0.5", features = ["ws", "headers", "multipart"] }
tokio = { version = "1", features = ["full"] }
hound = "3"
csv = "1"
reqwest = { version = "0.11", default-features = false, features = ["json", "rustls-tls", "stream"] }
sqlx = { version = "0.6", default-features = false, features = ["runtime-tokio-rustls", "postgres", "uuid", "chrono", "macros"] }
rusoto_core = { version = "0.48", default-features = false, features = ["rustls"] }
rusoto_s3 = { version = "0.48", default-features = false, features = ["rustls"] }
rusoto_credential = "0.48"
jsonwebtoken = "8"
parking_lot = "0.12"
dashmap = "5"
futures-util = "0.3"
tower = { version = "0.4", features = ["limit"] }
tower-http = { version = "0.3", features = ["cors", "trace", "fs"] }
tower-service = "0.3"
http = "0.2"
lazy_static = "1"
dotenv = "0.15"
tracing = "0.1"
schemars = "0.8"
walkdir = "2"
aper = "*"
rdkafka = "0.29"
