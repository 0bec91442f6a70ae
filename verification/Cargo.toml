[package]
name = "cdl_runner"
version = "0.1.0"
edition = "2021"
publish = false

[dependencies]
base64 = "*"
chrono = "0.4"
config = "*"
env_logger = "*"
flate2 = "1"
glob = "0.3"
log = "0.4"
mysql = "*"
postgres = "*"
r2d2 = "*"
r2d2_postgres = "*"
rayon = "1"
reqwest = { version = "*", default-features = false, features = ["blocking", "json"] }
ring = "*"
rocksdb = "*"
serde = { version = "1", features = ["derive"] }
serde_json = "1"
