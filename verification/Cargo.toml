[package]
name = "file_agent"
version = "0.1.0"
edition = "2021"
publish = false

[dependencies]
sled = "*"
uuid = { version = "*", features = ["v4"] }
actix-web = "*"
tokio = { version = "*", features = ["full"] }
async-ssh2-lite = { version = "*", features = ["tokio"] }
ssh2 = "*"
futures-util = "*"
serde = { version = "*", features = ["derive"] }
serde_json = "*"
log = "*"
env_logger = "*"
num_cpus = "*"
dotenvy = "*"
