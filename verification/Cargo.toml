[package]
name = "floatdo"
version = "0.1.0"
edition = "2021"
publish = false

[dependencies]
chrono = "=0.4.45"
rusqlite = { version = "=0.41.1", features = ["bundled"] }
serde = { version = "=1.0.229", features = ["derive"] }
serde_json = "=1.0.154"
image = { version = "=0.25.10", default-features = false, features = ["png", "jpeg", "webp", "gif"] }
reqwest = { version = "0.12", default-features = false, features = ["json"] }
tract-onnx = "*"
rfd = "0.15"

[dev-dependencies]
tempfile = "=3.27.0"
