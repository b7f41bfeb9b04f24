[package]
name = "screenhistory"
version = "0.1.0"
edition = "2021"
publish = false

[dependencies]
anyhow = "1"
clap = { version = "4", features = ["derive"] }
crossterm = "0.28"
csv = "1"
directories = "5"
env_logger = "0.11"
futures-util = "0.3"
ratatui = "0.29"
serde = { version = "1", features = ["derive"] }
serde_json = "1"
sqlx = { version = "0.8", default-features = false, features = ["sqlite", "runtime-tokio", "macros"] }
time = { version = "0.3", features = ["parsing", "formatting", "macros"] }
tokio = { version = "1", features = ["macros", "rt-multi-thread"] }
