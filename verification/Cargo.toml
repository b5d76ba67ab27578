[package]
name = "redis_postgres_migrator"
version = "0.1.0"
edition = "2021"
publish = false

[dependencies]
regex = "1"
rust-crypto = "0.2.36"
redis = { version = "*", default-features = false }
num_cpus = "1"
