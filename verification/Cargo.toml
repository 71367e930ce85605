[package]
name = "gmt_lom"
version = "0.1.0"
edition = "2021"
publish = false

[dependencies]
anyhow = "=1.0.104"
arrow = { version = "=60.0.0", default-features = false }
bincode = "=1.3.3"
bytes = "=1.12.1"
complot = "=0.3.5"
csv = "=1.4.0"
futures = "0.3"
nalgebra = "=0.35.0"
object_store = { version = "*", default-features = false }
parquet = { version = "=60.0.0", default-features = false, features = ["arrow", "async", "object_store"] }
serde = { version = "=1.0.229", features = ["derive"] }
serde-generate = "*"
serde-pickle = "=1.2.0"
serde-reflection = "*"
serde_yaml = "*"
skyangle = "=0.4.0"
structopt = "=0.3.26"
thiserror = "=2.0.21"
welch-sde = "=0.1.0"
