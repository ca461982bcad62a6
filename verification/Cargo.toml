[package]
name = "chop_chop"
version = "0.1.0"
edition = "2021"
publish = false

[dependencies]
async-trait = "=0.1.92"
bincode = "=1.3.3"
bit-vec = { version = "=0.6.3", features = ["serde"] }
futures = "=0.3.34"
rand = "=0.8.8"
rayon = "=1.12.0"
serde = { version = "=1.0.229", features = ["derive"] }
sha1 = "=0.10.7"
tokio = { version = "=1.54.1", features = ["full"] }
