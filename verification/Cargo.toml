[package]
name = "warp_i18n"
version = "0.1.0"
edition = "2021"
publish = false

[dependencies]
fluent-bundle = "=0.15.3"
fluent-syntax = "=0.11.1"
intl-memoizer = "=0.5.3"
unic-langid = "=0.9.6"
sys-locale = "=0.3.2"
anyhow = "=1.0.104"
clap = { version = "=4.6.7", features = ["derive"] }
chrono = "=0.4.45"
dirs = "=5.0.1"
directories = "=5.0.1"
log = "=0.4.35"
serde = { version = "=1.0.229", features = ["derive"] }
serde_json = "=1.0.154"
thiserror = "=1.0.69"
