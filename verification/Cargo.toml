[package]
name = "whatszara"
version = "0.1.0"
edition = "2021"
publish = false

[dependencies]
rand = "=0.8.5"
serde = { version = "1", features = ["derive"] }
serde_json = "1"
image = { version = "0.25", default-features = false, features = ["png"] }
reqwest = { version = "0.12", default-features = false, features = ["json", "rustls-tls"] }
tokio = { version = "1", features = ["time", "rt", "macros"] }
async-trait = "0.1"
shellexpand = "3"
