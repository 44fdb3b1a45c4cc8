[package]
name = "hambot"
version = "0.1.0"
edition = "2021"
publish = false

[dependencies]
anyhow = "*"
chrono = "*"
futures = "*"
reqwest = { version = "0.12", features = ["json"] }
seabird = "=0.4.0-alpha.4"
serde = { version = "*", features = ["derive"] }
serde-xml-rs = "*"
tokio = { version = "*", features = ["macros", "rt-multi-thread"] }
