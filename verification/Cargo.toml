[package]
name = "surrealmcp"
version = "0.1.0"
edition = "2021"
publish = false

[dependencies]
anyhow = "=1.0.104"
axum = "=0.8.9"
clap = { version = "=4.6.7", features = ["derive"] }
governor = "=0.10.4"
http = "=1.5.0"
metrics = "=0.24.6"
rand = "=0.10.3"
rmcp = "=3.7.0"
rustls = { version = "=0.23.46", features = ["ring"] }
serde = { version = "=1.0.229", features = ["derive"] }
serde_json = "=1.0.154"
surrealdb = { version = "=3.3.4", default-features = false }
surrealdb-types = "=3.3.4"
tokio = { version = "=1.54.1", features = ["macros", "rt-multi-thread", "net"] }
tracing = "=0.1.44"
