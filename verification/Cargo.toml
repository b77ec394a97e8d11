[package]
name = "rusty_workers_runtime"
version = "0.1.0"
edition = "2021"
publish = false

[dependencies]
lru_time_cache = "0.11"
base64 = "0.13"
rand = "0.8"
serde = { version = "1", features = ["derive"] }
serde_json = "1"
structopt = "0.3"
thiserror = "1"
tokio = { version = "1", features = ["full"] }
futures = "0.3"
anyhow = "1"
toml = "0.5"
log = "0.4"
pretty_env_logger = "0.4"
parse_duration = "2"
