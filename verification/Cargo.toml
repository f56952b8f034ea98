[package]
name = "cfddns"
version = "0.1.0"
edition = "2021"
publish = false

[dependencies]
anyhow = "1"
cloudflare = "*"
futures = "0.3"
hashbrown = "*"
itertools = "*"
log = "0.4"
nix = { version = "*", features = ["net"] }
reqwest = "*"
serde = { version = "1", features = ["derive"] }
serde_json = "1"
systemd-journal-logger = "*"
tokio = { version = "1", features = ["rt", "macros"] }
url = { version = "2", features = ["serde"] }
