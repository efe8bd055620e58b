[package]
name = "kalaxia"
version = "0.1.0"
edition = "2021"
publish = false

[dependencies]
uuid = { version = "1", features = ["v4", "serde"] }
rand = "0.7"
serde = { version = "1", features = ["derive"] }
serde_json = "1"
chrono = { version = "0.4", features = ["serde"] }
actix = "0.13"
actix-rt = "2"
actix-web = "4"
actix-web-actors = "4"
sqlx = { version = "0.8", default-features = false, features = ["runtime-tokio", "postgres", "uuid", "chrono", "json"] }
futures = "0.3"
tokio = { version = "1", features = ["sync"] }
jsonwebtoken = "8"
gelf = "0.5"
env_logger = "0.10"
openssl = "0.10"
petgraph = "0.6"
galaxy-rs = "*"
