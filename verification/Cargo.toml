[package]
name = "botte"
version = "0.1.0"
edition = "2021"
publish = false

[dependencies]
anyhow = "=1.0.104"
async-imap = "=0.12.0"
axum = "=0.8.9"
chrono = "=0.4.45"
clap = { version = "=4.6.7", features = ["derive"] }
crossbeam = "=0.8.5"
futures = "=0.3.34"
log = "=0.4.34"
mailparse = "=0.18.0"
once_cell = "=1.21.4"
reqwest = "=0.12.28"
serde = { version = "=1.0.229", features = ["derive"] }
serde_json = "=1.0.151"
sysinfo = "=0.39.6"
takecell = "=0.1.1"
teloxide = { version = "=0.17.0", features = ["macros", "ctrlc_handler"] }
tokio = { version = "=1.53.2", features = ["full"] }
tokio-native-tls = "=0.3.1"
tokio-util = { version = "=0.7.19", features = ["compat"] }
toml = "=1.1.7"
