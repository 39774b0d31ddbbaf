[package]
name = "node_core"
version = "0.1.0"
edition = "2021"
publish = false

[dependencies]
merlin = "3.0"
schnorrkel = "0.11"
rand_core = "0.6"
serde = { version = "1", features = ["derive"] }
serde_json = "1"
thiserror = "1"
tokio = { version = "1", features = ["net", "rt", "sync", "time", "macros"] }
socket2 = "0.5"
futures = "0.3"
async-trait = "0.1"

[dev-dependencies]
rand = "0.8"
rand_chacha = "0.3"
