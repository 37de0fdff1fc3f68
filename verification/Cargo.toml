[package]
name = "idemio"
version = "0.1.0"
edition = "2021"
publish = false

[dependencies]
fnv = "1.0.7"
dashmap = "6"
uuid = { version = "1", features = ["v4"] }
async-trait = "0.1"
futures-util = "0.3"
serde = { version = "1", features = ["derive"] }
serde_json = "1"
thiserror = "2"
log = "0.4"
once_cell = "1"
chrono = "0.4"
