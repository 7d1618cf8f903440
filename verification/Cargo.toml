[package]
name = "bet_archiver"
version = "0.1.0"
edition = "2021"
publish = false

[dependencies]
anyhow = "1"
arrayvec = "0.7"
base64 = "0.22"
config = { version = "0.14", default-features = false, features = ["json"] }
dotenvy = "0.15"
env_logger = "0.11"
hex = "0.4"
md-5 = "0.10"
openssl = "0.10"
reqwest = { version = "0.12", default-features = false, features = ["json", "default-tls"] }
rustc-hash = "1"
serde = { version = "1", features = ["derive"] }
serde_json = "1"
serde_urlencoded = "0.7"
smallvec = "1"
sqlx = { version = "0.7", default-features = false, features = ["runtime-tokio", "postgres", "mysql", "time", "uuid"] }
time = { version = "0.3", features = ["macros"] }
tokio = { version = "1", features = ["macros", "rt-multi-thread"] }
uuid = { version = "1", features = ["v4", "serde"] }
