[package]
name = "akasha_core"
version = "0.1.0"
edition = "2021"
publish = false

[dependencies]
wilupgu = "=0.4.3"
bincode = "=1.3.3"
bytemuck = { version = "=1.25.2", features = ["derive"] }
rand = "=0.8.8"
serde = { version = "=1.0.229", features = ["derive"] }
pollster = "0.3"
parquet = { version = "60.1.0", default-features = false }
