[package]
name = "am_rate_bot"
version = "0.1.0"
edition = "2021"
publish = false

[dependencies]
anyhow = "1"
chrono = "=0.4.45"
derive_more = "=0.99.20"
dptree = "0.3"
env_logger = "0.11"
log = "0.4"
quick-xml = { version = "=0.36.2", features = ["serialize"] }
regex = "=1.13.1"
reqwest = { version = "=0.12.28", default-features = false, features = ["json", "rustls-tls"] }
rust_decimal = { version = "=1.43.0", features = ["serde-with-arbitrary-precision"] }
select = "=0.6.1"
serde = { version = "1", features = ["derive"] }
serde_json = "=1.0.154"
serde_repr = "0.1"
strum = { version = "=0.26.3", features = ["derive"] }
takecell = "=0.1.1"
teloxide = { version = "=0.13.0", default-features = false, features = ["macros", "throttle", "webhooks-axum", "ctrlc_handler", "rustls"] }
thiserror = "1"
tokio = { version = "1", features = ["full"] }
toml = "0.8"
