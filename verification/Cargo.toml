[package]
name = "writeonce"
version = "0.1.0"
edition = "2021"
publish = false

[dependencies]
libc = "0.2"
sha2 = "0.10"
serde = { version = "1", features = ["derive"] }
serde_json = "1"
toml = "0.8"
anyhow = "1"
log = "0.4"
env_logger = "0.11"
clap = { version = "4", features = ["derive"] }
tokio = { version = "1", features = ["rt-multi-thread", "fs", "process", "time", "macros"] }
zbus = "5"
signal-hook = "0.3"
indicatif = "0.17"
tar = "0.4"
zstd = "0.13"
tempfile = "3"
rpassword = "7"
ratatui = "0.29"
crossterm = "0.28"
