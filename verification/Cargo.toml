[package]
name = "aevum"
version = "0.1.0"
edition = "2021"
publish = false

[dependencies]
uuid = { version = "1", features = ["v4", "serde"] }
chrono = { version = "0.4", features = ["serde"] }
num_cpus = "1"
serde = { version = "1", features = ["derive"] }
serde_json = "1"
config = { version = "0.14", default-features = false, features = ["toml"] }
thiserror = "1"
anyhow = "1"
tokio = { version = "1", features = ["full"] }
futures = "0.3"
tracing = "0.1"
tracing-subscriber = "0.3"
async-trait = "0.1"
rdkafka = "0.36"
sqlx = { version = "0.7", default-features = false, features = ["runtime-tokio", "postgres", "chrono", "uuid", "json", "migrate"] }
axum = "0.6"
tower = "0.4"
tower-http = { version = "0.4", features = ["cors", "trace"] }
actix-web = "4"
actix-cors = "0.7"
bon = "3"
