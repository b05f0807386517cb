[package]
name = "arxiv_tools"
version = "0.1.0"
edition = "2021"
publish = false

[dependencies]
chrono = "0.4"
quick-xml = "0.37"
reqwest = { version = "0.12", default-features = false }
serde = { version = "1", features = ["derive"] }
urlencoding = "2"
