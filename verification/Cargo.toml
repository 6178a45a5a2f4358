[package]
name = "perpbot"
version = "0.1.0"
edition = "2021"
publish = false

[dependencies]
sha3 = "*"
secp256k1 = { version = "*", features = ["recovery"] }
hex = "*"
serde = { version = "*", features = ["derive"] }
serde_json = "*"
reqwest = { version = "*", default-features = false, features = ["json"] }
tokio = { version = "*", features = ["rt-multi-thread", "macros", "time", "signal", "sync"] }
tokio-tungstenite = "*"
futures-util = "*"
ureq = { version = "*", features = ["json"] }
chrono = "*"
dotenv = "*"
