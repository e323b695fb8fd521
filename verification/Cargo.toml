[package]
name = "hana_prefab"
version = "0.1.0"
edition = "2021"
publish = false

[dependencies]
bevy = { version = "0.13", default-features = false }
ron = "=0.8.1"
serde = { version = "=1.0.229", features = ["derive"] }
thiserror = "=1.0.69"
