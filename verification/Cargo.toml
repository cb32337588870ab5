[package]
name = "etl_destinations"
version = "0.1.0"
edition = "2021"
publish = false

[dependencies]
anyhow = "=1.0.104"
aws-lc-rs = "=1.19.0"
base64 = "=0.22.1"
bytes = "=1.12.1"
chrono = "=0.4.45"
clap = { version = "=4.6.7", features = ["derive"] }
clickhouse = { version = "*", default-features = false }
gcp-bigquery-client = "=0.28.0"
pg_escape = "=0.1.1"
prost = "=0.14.4"
rand = "=0.10.3"
reqwest = { version = "=0.13.5", default-features = false, features = ["json"] }
serde = { version = "=1.0.229", features = ["derive"] }
serde_json = "=1.0.154"
sqlx = { version = "=0.8.6", default-features = false, features = ["runtime-tokio", "postgres", "migrate"] }
tokio = { version = "=1.54.1", features = ["time", "sync", "macros", "rt"] }
uuid = "=1.29.0"
zstd = "=0.13.4"
