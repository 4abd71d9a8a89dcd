[package]
name = "trading_common"
version = "0.1.0"
edition = "2021"
publish = false

[dependencies]
rust_decimal = "=1.43.0"
chrono = { version = "=0.4.45", features = ["serde"] }
serde = { version = "=1.0.229", features = ["derive"] }
serde_json = "=1.0.154"
uuid = { version = "=1.29.0", features = ["v4", "serde"] }
thiserror = "=1.0.69"
statrs = "=0.17.1"
rand = "=0.8.8"
rand_distr = "=0.4.3"
tokio = { version = "=1.54.1", features = ["sync"] }
sqlx = { version = "=0.8.6", default-features = false, features = ["runtime-tokio", "postgres", "chrono", "rust_decimal", "uuid", "json"] }
redis = "=1.8.1"
reqwest = { version = "=0.12.28", default-features = false, features = ["json"] }
async-trait = "=0.1.92"
