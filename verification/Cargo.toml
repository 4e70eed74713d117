[package]
name = "shm_logger"
version = "0.1.0"
edition = "2021"
publish = false

[dependencies]
questdb-rs = "=7.2.0"
crossbeam = "=0.8.5"
core_affinity = "=0.8.3"
serde = { version = "=1.0.229", features = ["derive"] }
memmap2 = "=0.9.12"
