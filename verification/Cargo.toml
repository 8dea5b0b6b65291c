[package]
name = "brightstaff"
version = "0.1.0"
edition = "2021"
publish = false

[dependencies]
bcrypt = "=0.15.1"
bytes = "=1.12.1"
chrono = { version = "=0.4.45", features = ["serde"] }
dashmap = "=6.2.1"
deadpool-postgres = "=0.14.2"
hex = "=0.4.3"
http-body-util = "=0.1.5"
hyper = { version = "=1.12.0", features = ["full"] }
hyper-util = { version = "=0.1.21", features = ["full"] }
moka = { version = "=0.12.16", features = ["future"] }
redis = { version = "0.27", features = ["tokio-comp"] }
regex = "=1.13.1"
reqwest = { version = "=0.12.28", default-features = false, features = ["json"] }
serde = { version = "=1.0.229", features = ["derive"] }
serde_json = "=1.0.154"
serde_yaml = "0.9"
sha2 = "=0.10.9"
thiserror = "=2.0.21"
tokio = { version = "=1.54.1", features = ["full"] }
tokio-postgres = { version = "=0.7.18", features = ["with-uuid-1", "with-chrono-0_4"] }
tokio-stream = "0.1"
tracing = "=0.1.44"
ulid = "=1.2.1"
urlencoding = "=2.1.3"
uuid = { version = "=1.29.0", features = ["v4", "v5", "serde"] }

[dev-dependencies]
rand = "=0.9.5"
