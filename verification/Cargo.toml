[package]
name = "load_balancer"
version = "0.1.0"
edition = "2021"
publish = false

[dependencies]
sha2 = "0.10"
sha3 = "0.10"
subtle = "2"
data-encoding = "2"
uuid = { version = "1", features = ["v7"] }
rand = "0.8"
chrono = "0.4"
rusqlite = { version = "*", features = ["bundled"] }
serde = { version = "1", features = ["derive"] }
serde_yaml = "0.9"
tokio = { version = "1", features = ["rt-multi-thread", "macros", "sync", "time"] }
async-trait = "0.1"
clap = { version = "4", features = ["derive"] }
log = "0.4"
env_logger = "0.11"
pingora = { version = "*", default-features = false, features = ["proxy"] }
