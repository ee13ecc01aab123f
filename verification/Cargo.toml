[package]
name = "infinity_ledger"
version = "0.1.0"
edition = "2021"
publish = false

[dependencies]
sha2 = "=0.10.9"
hmac = "=0.12.1"
serde = { version = "=1.0.229", features = ["derive"] }
serde_json = "=1.0.154"
serde_yaml = "=0.9.34"
thiserror = "=1.0.69"
chrono = "=0.4.45"
uuid = { version = "=1.29.1", features = ["v4"] }
rand = "=0.8.8"
rand_distr = "=0.4.3"
ndarray = "=0.15.6"
num-complex = "=0.4.6"
rustfft = "=6.4.1"
dirs = "=5.0.1"
walkdir = "=2.5.0"
log = "=0.4.35"
nalgebra = "0.33"
async-trait = "0.1"
aws-config = "1"
aws-sdk-s3 = "1"
