[package]
name = "archlint"
version = "0.1.0"
edition = "2021"
publish = false

[dependencies]
memchr = "=2.8.3"
glob = "=0.3.4"
sha2 = "=0.10.9"
petgraph = "=0.8.3"
regex = "=1.13.1"
serde = { version = "=1.0.229", features = ["derive"] }
serde_json = "=1.0.154"
json5 = "=1.3.7"
ignore = "=0.4.34"
chrono = { version = "0.4", default-features = false, features = ["clock", "std"] }
