[package]
name = "ftp_server"
version = "0.1.0"
edition = "2021"
publish = false

[dependencies]
shlex = "1"
async-trait = "0.1"
clap = { version = "4", features = ["derive"] }
libunftp = "*"
unftp-core = "*"
rdkafka = "*"
serde = { version = "1", features = ["derive"] }
slog = "2"
slog-async = "2"
slog-term = "2"
tokio = { version = "1", features = ["full"] }
toml = "*"
