[package]
name = "fetish_common"
version = "0.1.0"
edition = "2021"
publish = false

[dependencies]
async-trait = "=0.1.92"
chrono = "=0.4.45"
clap = { version = "=4.6.7", features = ["derive"] }
crossterm = "0.27"
dialoguer = "=0.12.0"
env_logger = "=0.11.11"
futures = "=0.3.34"
log = "=0.4.34"
rand = "=0.10.3"
ratatui = "0.26"
regex = "=1.13.1"
rusqlite = "=0.41.0"
serde = { version = "=1.0.229", features = ["derive"] }
serde_json = "=1.0.154"
tdlib = { version = "=0.10.0", features = ["dox"] }
tokio = { version = "=1.54.1", features = ["macros", "rt-multi-thread", "signal", "sync", "time"] }
unidecode = "=0.3.0"
