[package]
name = "tempest"
version = "0.1.0"
edition = "2021"
publish = false

[dependencies]
anyhow = "=1.0.104"
async-trait = "=0.1.92"
cel-interpreter = { version = "=0.10.0", features = ["json"] }
cel-parser = "=0.10.1"
colored = "=3.1.1"
kstring = "=2.0.2"
liquid = "=0.26.11"
liquid-core = "=0.26.11"
reqwest = { version = "=0.13.5", default-features = false }
serde = { version = "=1.0.229", features = ["derive"] }
serde_json = "=1.0.154"
tokio = { version = "=1.54.1", features = ["rt-multi-thread", "macros", "time"] }
