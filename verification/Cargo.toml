[package]
name = "mcpg_plugin_backend_mssql"
version = "0.1.0"
edition = "2021"
publish = false

[dependencies]
async-trait = "0.1"
base64 = "0.22"
cel = "0.14"
chrono = "0.4"
deadpool = { version = "0.12", features = ["managed", "rt_tokio_1"] }
serde = { version = "1", features = ["derive"] }
serde_json = "1"
tiberius = { version = "0.12", default-features = false, features = ["rustls", "chrono", "tds73"] }
tokio = { version = "1", features = ["full"] }
tokio-util = { version = "0.7", features = ["compat"] }
tracing = "0.1"
