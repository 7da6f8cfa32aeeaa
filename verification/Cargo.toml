[package]
name = "ai"
version = "0.1.0"
edition = "2021"
publish = false

[dependencies]
anyhow = "=1.0.104"
arboard = "=3.6.1"
clap = { version = "=4.6.7", features = ["derive"] }
dotenv = "=0.15.0"
reqwest = { version = "=0.13.5", default-features = false, features = ["json", "query"] }
rig-core = { version = "=0.44.0", features = ["reqwest"] }
serde = { version = "=1.0.229", features = ["derive"] }
serde_json = "=1.0.151"
thiserror = "=2.0.21"
tokio = { version = "=1.53.2", features = ["rt-multi-thread"] }
