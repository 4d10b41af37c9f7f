[package]
name = "lyricsmpris"
version = "0.1.0"
edition = "2021"
publish = false

[dependencies]
regex = "=1.13.1"
unicode-segmentation = "=1.13.3"
urlencoding = "=2.1.3"
zstd = "=0.14.3"
textwrap = "=0.16.4"
serde = { version = "=1.0.229", features = ["derive"] }
serde_json = "=1.0.154"
tokio = { version = "=1.54.1", features = ["rt-multi-thread", "macros", "sync", "time"] }
reqwest = { version = "=0.12.28", default-features = false, features = ["json", "rustls-tls"] }
sqlx = { version = "=0.9.0", default-features = false, features = ["sqlite", "runtime-tokio"] }
zbus = { version = "=6.2.1", default-features = false, features = ["tokio", "proxy"] }
futures-util = "=0.3.34"
crossterm = "=0.29.0"
ratatui = "=0.30.2"
clap = { version = "=4.6.7", features = ["derive"] }
tracing = "=0.1.44"
tracing-subscriber = { version = "=0.3.23", features = ["env-filter"] }
lofty = "=0.25.5"
thiserror = "=2.0.21"
once_cell = "=1.21.4"
