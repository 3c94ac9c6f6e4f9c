[package]
name = "model3d"
version = "0.1.0"
edition = "2021"
publish = false

[dependencies]
base64 = "=0.21.7"
image = { version = "=0.25.10", default-features = false, features = ["png"] }
reqwest = { version = "=0.12.28", default-features = false, features = ["json"] }
rmp-serde = "=1.3.1"
rspc-legacy = "=0.0.1"
serde = { version = "=1.0.229", features = ["derive"] }
serde_json = "=1.0.154"
specta = "=1.0.5"
thiserror = "=1.0.69"
tokio = { version = "=1.54.1", features = ["fs", "rt"] }
tracing = "=0.1.44"
