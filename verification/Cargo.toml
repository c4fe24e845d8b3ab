[package]
name = "bookfetch"
version = "0.1.0"
edition = "2021"
publish = false

[dependencies]
anyhow = "=1.0.104"
bytes = "=1.12.1"
chrono = "=0.4.45"
clap = { version = "=4.6.7", features = ["derive"] }
inquire = "=0.9.4"
regex = "=1.13.1"
reqwest = { version = "=0.13.5", features = ["cookies", "form"] }
reqwest_cookie_store = "=0.10.0"
serde = { version = "=1.0.229", features = ["derive"] }
serde_json = "=1.0.154"
tokio = { version = "=1.54.1", features = ["full"] }

[dev-dependencies]
url = "=2.5.8"
