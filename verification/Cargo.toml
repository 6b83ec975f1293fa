[package]
name = "peek"
version = "0.1.0"
edition = "2021"
publish = false

[dependencies]
anyhow = "=1.0.104"
chrono = "=0.4.45"
cliclack = "=0.5.6"
colored = "=3.1.1"
comfy-table = "=8.0.1"
rust_decimal = "=1.43.0"
serde = { version = "=1.0.229", features = ["derive"] }
serde_json = "=1.0.151"
sqlx = { version = "=0.9.0", features = ["postgres", "runtime-tokio", "uuid", "chrono", "rust_decimal", "json"] }
tokio = { version = "=1.53.2", features = ["rt-multi-thread"] }
toml = "=1.1.7"
uuid = "=1.27.0"
