[package]
name = "batchdb"
version = "0.1.0"
edition = "2021"
publish = false

[dependencies]
futures = "0.3"
sqlx = { version = "0.8", default-features = false, features = ["runtime-tokio", "sqlite"] }

[dev-dependencies]
tempfile = "3"
tokio = { version = "1", features = ["rt", "rt-multi-thread", "time"] }
