[package]
name = "ayame"
version = "0.1.0"
edition = "2021"
publish = false

[dependencies]
html-escape = "=0.2.15"
url = "=2.5.8"
rand = "=0.8.8"
regex = "=1.13.1"
chrono = { version = "=0.4.45", default-features = false, features = ["std", "clock"] }
humantime = "=2.4.0"
serde = { version = "=1.0.229", features = ["derive"] }
serde_json = "=1.0.154"
toml = "=0.5.11"
tokio = { version = "=1.54.1", features = ["rt-multi-thread", "macros", "time", "signal"] }
poise = "=0.4.1"
tracing = "=0.1.44"
tracing-subscriber = "=0.3.23"
lazy_static = "=1.5.1"
uwuify = "=0.2.2"
itertools = "=0.10.5"
strum = { version = "=0.24.1", features = ["derive"] }
reqwest = { version = "=0.11.27", default-features = false, features = ["rustls-tls"] }
figment = { version = "=0.10.19", features = ["toml", "env", "json"] }
signal-hook = "=0.3.18"
fs_extra = "=1.3.0"
ytd-rs = "=0.1.7"
songbird = "=0.3.2"
apex-rs = "=0.1.0"
