[package]
name = "runeswap_solver"
version = "0.1.0"
edition = "2021"
publish = false

[dependencies]
reqwest = { version = "*", default-features = false, features = ["json"] }
tokio = { version = "*", features = ["rt-multi-thread", "macros", "signal", "time", "net"] }
tokio-tungstenite = "*"
futures-util = "*"
serde = { version = "*", features = ["derive"] }
serde_json = "*"
log = "*"
env_logger = "*"
thiserror = "*"
async-trait = "*"
