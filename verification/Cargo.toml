[package]
name = "qcext-server"
version = "0.1.0"
edition = "2021"
publish = false

[dependencies]
actix-multipart = "=0.7.2"
actix-web = "=4.18.1"
actix-web-grants = "=4.1.2"
actix-web-lab = "=0.29.5"
anyhow = "=1.0.104"
chrono = { version = "=0.4.45", features = ["serde"] }
crc32c = "=0.6.9"
futures = "=0.3.34"
parse-display = "=0.11.0"
rand = "=0.8.8"
semval = "=0.5.2"
serde = { version = "=1.0.229", features = ["derive"] }
sqlx = { version = "=0.8.6", default-features = false, features = ["mysql", "runtime-tokio", "chrono", "macros", "migrate"] }
tokio = { version = "=1.54.1", features = ["full"] }
tracing = "=0.1.44"
ts-rs = "=12.0.1"
