[package]
name = "orion_error"
version = "0.9.0"
edition = "2021"
publish = false

[dependencies]
smol_str = "=0.3.7"
serde = { version = "=1.0.229", features = ["derive"] }
serde_json = "=1.0.154"
log = "=0.4.35"
tracing = "=0.1.44"
thiserror = "=2.0.21"
anyhow = "=1.0.104"
toml = "=0.8.23"
syn = { version = "=2.0.119", features = ["full"] }
quote = "=1.0.47"
