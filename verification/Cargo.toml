[package]
name = "moomoo_adaptor"
version = "0.1.0"
edition = "2021"
publish = false

[dependencies]
sha1 = "0.10"
prost = "*"
tokio = { version = "1", features = ["full"] }
anyhow = "1"
chrono = "0.4"
dotenvy = "0.15"
futures = "0.3"
questdb-rs = "*"
