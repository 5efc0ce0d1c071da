[package]
name = "innodb"
version = "0.1.0"
edition = "2021"
publish = false

[dependencies]
anyhow = "1"
chrono = { version = "0.4", default-features = false, features = ["std"] }
clap = { version = "4", features = ["derive"] }
crc = "3"
indicatif = "0.17"
sqlparser = "0.51"
struson = "*"
tracing = "0.1"
tracing-subscriber = "0.3"
