[package]
name = "location_store"
version = "0.1.0"
edition = "2021"
publish = false

[dependencies]
reed-solomon-simd = "=3.1.0"
uuid = "=1.29.0"
actix = "=0.13.5"
actix-rt = "=2.15.0"
actix-web = { version = "=4.18.1", default-features = false, features = ["macros"] }
awc = { version = "=3.11.0", default-features = false }
tonic = "=0.12.3"
tonic-reflection = "=0.12.3"
prost = "=0.13.5"
prost-types = "=0.13.5"
tokio = { version = "=1.54.1", features = ["macros", "rt-multi-thread", "sync"] }
futures = "=0.3.34"
log = "=0.4.34"
env_logger = "=0.11.11"
rand = "=0.9.5"
serde = { version = "=1.0.229", features = ["derive"] }
