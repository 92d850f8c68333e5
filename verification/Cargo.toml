[package]
name = "secure_messaging_client"
version = "0.1.0"
edition = "2021"
publish = false

[dependencies]
aes-gcm = "0.10"
base64 = "0.22"
pqc_kyber = "0.7"
rand = "0.8"
rand_core = "0.6"
anyhow = "1"
env_logger = "0.11"
reqwest = { version = "0.11", default-features = false, features = ["json"] }
rustyline = "14"
serde = { version = "1", features = ["derive"] }
tokio = { version = "1", features = ["macros", "rt-multi-thread"] }
