[package]
name = "zeus_tokens"
version = "0.1.0"
edition = "2021"
publish = false

[dependencies]
bincode-next = "*"
alloy-primitives = { version = "*", default-features = false, features = ["std"] }
image = { version = "*", default-features = false, features = ["png"] }
serde = { version = "*", features = ["derive"] }
serde_json = "*"
anyhow = "*"
dotenv = "*"
tokio = { version = "*", features = ["macros", "rt-multi-thread", "sync"] }
