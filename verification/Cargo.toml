[package]
name = "tfs-rust"
version = "0.1.0"
edition = "2021"
publish = false

[dependencies]
byteorder = "=1.5.0"
rand = "=0.8.8"
serde = { version = "=1.0.229", features = ["derive"] }
serde_json = "=1.0.154"
json5 = "=0.4.1"
quick-xml = { version = "=0.42.0", features = ["serialize"] }
roxmltree = "=0.21.2"
thiserror = "=2.0.21"
anyhow = "=1.0.104"
tokio = { version = "1", features = ["rt", "sync", "time", "net"] }
