[package]
name = "sqlsurge"
version = "0.1.0"
edition = "2021"
publish = false

[dependencies]
sqlparser = "0.53"
clap = { version = "4", features = ["derive"] }
glob = "0.3"
serde = { version = "1", features = ["derive"] }
serde_json = "1"
toml = "0.8"
