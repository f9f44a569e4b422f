[package]
name = "panoptes"
version = "0.1.0"
edition = "2021"
publish = false

[dependencies]
nix = { version = "0.29", features = ["inotify", "resource"] }
caps = "0.5"
chrono = "0.4"
clap = { version = "4", features = ["derive", "env"] }
tokio = { version = "1", features = ["full"] }
tracing = "0.1"
tracing-subscriber = "0.3"
anyhow = "1"
thiserror = "1"
aya = "0.13"
aya-log = "0.2"
