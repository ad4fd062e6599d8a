[package]
name = "hivedb"
version = "0.1.0"
edition = "2021"
publish = false

[dependencies]
env_logger = "=0.11.11"
hex = "=0.4.3"
log = "=0.4.34"
lz4 = "=1.28.1"
rand = "=0.8.8"
ring = "=0.17.14"
serde = { version = "=1.0.229", features = ["derive"] }
serde_json = "=1.0.154"
thiserror = "=1.0.69"

[dev-dependencies]
hexgrid = "=0.2.0"
tempfile = "=3.27.0"
