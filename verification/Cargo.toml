[package]
name = "murmure"
version = "0.1.0"
edition = "2021"
publish = false

[dependencies]
rphonetic = { version = "=4.0.0", features = ["embedded_bm"] }
hound = "=3.5.1"
serde = { version = "=1.0.229", features = ["derive"] }
serde_json = "=1.0.151"
reqwest = { version = "=0.13.5", default-features = false, features = ["blocking", "json"] }
