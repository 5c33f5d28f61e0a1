[package]
name = "mini_redis"
version = "0.1.0"
edition = "2021"
publish = false

[dependencies]
async-stream = "0.3"
atoi = "2"
bytes = "1"
clap = { version = "3", features = ["derive"] }
dotenv = "0.15"
log = "0.4"
thiserror = "1"
tokio = { version = "1", features = ["full"] }
tokio-stream = "0.1"
