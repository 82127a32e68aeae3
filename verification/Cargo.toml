[package]
name = "stationapi"
version = "0.1.0"
edition = "2021"
publish = false

[dependencies]
anyhow = "1"
async-trait = "0.1"
futures = "0.3"
moka = { version = "0.12", features = ["future"] }
sqlx = { version = "0.7", default-features = false, features = ["mysql", "runtime-tokio", "macros"] }
