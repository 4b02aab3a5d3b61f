[package]
name = "chat_node"
version = "0.1.0"
edition = "2021"
publish = false

[dependencies]
libp2p-identity = { version = "*", features = ["ed25519", "peerid", "rand"] }
serde = { version = "1", features = ["derive"] }
tokio = { version = "1", features = ["macros", "rt", "rt-multi-thread", "sync", "time"] }
