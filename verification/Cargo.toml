[package]
name = "layerfs"
version = "0.1.0"
edition = "2021"
publish = false

[dependencies]
rustix = { version = "1", features = ["fs", "mount", "process", "thread", "system"] }
serde = { version = "1", features = ["derive"] }
serde_json = "1"
thiserror = "2"
