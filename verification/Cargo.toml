[package]
name = "vdal"
version = "0.1.0"
edition = "2021"
publish = false

[dependencies]
sled = "0.34"
http = "0.2"
serde_json = "1"
serde = { version = "1", features = ["derive"] }
bytes = "1"
tokio = { version = "1", features = ["sync"] }
async-trait = "0.1"
futures = "0.3"
log = "0.4"
anyhow = "1"
