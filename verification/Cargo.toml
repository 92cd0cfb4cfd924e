[package]
name = "turboquant"
version = "0.1.0"
edition = "2021"
publish = false

[dependencies]
rayon = "=1.12.0"
thiserror = "=1.0.69"
cudarc = { version = "=0.12.1", default-features = false, features = ["std", "driver", "cuda-12020"] }
