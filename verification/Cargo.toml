[package]
name = "tincan"
version = "0.1.0"
edition = "2021"
publish = false

[dependencies]
anyhow = "1"
argon2 = "=0.5.3"
audiopus = "*"
bytes = "1"
chrono = "*"
clap = { version = "4", features = ["derive"] }
clap_complete = "4"
cpal = "*"
crossterm = "*"
data-encoding = "2"
libc = "0.2"
postcard = { version = "1", features = ["use-std"] }
rand = "=0.9.5"
ratatui = "*"
rtrb = "*"
serde = { version = "1", features = ["derive"] }
subtle = "2"
tokio = { version = "1", features = ["full"] }
toml = "*"
tracing = "0.1"
tracing-subscriber = { version = "0.3", features = ["env-filter"] }
