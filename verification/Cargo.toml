[package]
name = "clip_preparer"
version = "0.1.0"
edition = "2021"
publish = false

[dependencies]
anyhow = "1"
clap = { version = "4", features = ["derive"] }
config = "*"
convert_case = "*"
futures-util = "0.3"
indicatif = "*"
reqwest = { version = "*", features = ["json", "stream"] }
self_update = "*"
serde = { version = "1", features = ["derive"] }
tokio = { version = "1", features = ["full"] }
url = { version = "2", features = ["serde"] }
