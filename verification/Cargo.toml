[package]
name = "recapit"
version = "0.1.0"
edition = "2021"
publish = false

[dependencies]
anyhow = "*"
base64 = "*"
clap = { version = "*", features = ["derive"] }
crossterm = "*"
dirs = "*"
glob = "*"
hex = "*"
jsonwebtoken = "*"
mime = "*"
mime_guess = "*"
rand = "*"
rayon = "*"
reqwest = { version = "*", default-features = false, features = ["blocking", "json", "rustls-tls"] }
serde = { version = "*", features = ["derive"] }
serde_json = "*"
serde_yaml = "*"
sha2 = "*"
thiserror = "*"
time = { version = "*", features = ["formatting", "serde", "macros"] }
tokio = { version = "*", features = ["rt-multi-thread", "macros", "sync", "signal"] }
tracing = "*"
tracing-subscriber = { version = "*", features = ["env-filter"] }
url = "*"
walkdir = "*"
which = "*"
