[package]
name = "fs_sav"
version = "0.1.0"
edition = "2021"
publish = false

[dependencies]
uesave = "=0.7.1"
chrono = { version = "=0.4.45", features = ["serde"] }
serde = { version = "=1.0.229", features = ["derive"] }
serde_json = "=1.0.154"
thiserror = "=2.0.21"
anyhow = "=1.0.104"
clap = { version = "=4.6.7", features = ["derive"] }
ctrlc = "=3.5.2"
notify = "=8.2.1"
notify-debouncer-mini = "=0.7.0"
