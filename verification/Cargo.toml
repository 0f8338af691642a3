[package]
name = "roboclic"
version = "0.1.0"
edition = "2021"
publish = false

[dependencies]
rand = "=0.8.8"
dptree = "=0.3.0"
envconfig = "=0.11.1"
log = "=0.4.34"
sqlx = { version = "=0.7.4", features = ["sqlite", "runtime-tokio"] }
teloxide = { version = "=0.12.2", features = ["macros"] }
takecell = "=0.1.1"
