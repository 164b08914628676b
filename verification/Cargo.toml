[package]
name = "kubewarden"
version = "0.1.0"
edition = "2021"
publish = false

[dependencies]
wasmtime = "=48.0.5"
tokio = { version = "=1.53.2", features = ["sync"] }
sha2 = "=0.10.9"
x509-parser = "=0.18.1"
humansize = "=2.1.3"
serde = { version = "=1.0.229", features = ["derive"] }
serde_json = "=1.0.151"
serde_yaml = "=0.9.34"
