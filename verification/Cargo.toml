[package]
name = "flooring_monitor"
version = "0.1.0"
edition = "2021"
publish = false

[dependencies]
serde_json = "1"
dotenv = "0.15"
ethers = { version = "2", default-features = false, features = ["abigen", "rustls", "ws"] }
reqwest = { version = "0.11", default-features = false, features = ["rustls-tls"] }
tokio = { version = "1", features = ["macros", "rt-multi-thread", "time"] }
