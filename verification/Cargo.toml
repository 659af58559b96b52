[package]
name = "quark"
version = "0.1.0"
edition = "2021"
publish = false

[dependencies]
async-trait = "0.1"
futures-core = "0.3"
http = "0.2"
k8s-openapi = { version = "0.18", features = ["v1_26"] }
libc = "0.2"
prost = "0.11"
serde = { version = "1", features = ["derive"] }
serde_json = "1"
spin = "0.9"
tokio = { version = "1", features = ["sync", "rt", "macros"] }
tonic = "0.8"
