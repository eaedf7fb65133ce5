[package]
name = "pepa"
version = "0.1.0"
edition = "2021"
publish = false

[dependencies]
serde_json = "*"
parquet = { version = "*", features = ["arrow"] }
clap = { version = "*", features = ["derive"] }

[dev-dependencies]
bytes = "*"
