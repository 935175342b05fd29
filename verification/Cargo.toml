[package]
name = "codex_sandbox"
version = "0.1.0"
edition = "2021"
publish = false

[dependencies]
anyhow = "1"
clap = { version = "4", features = ["derive"] }
container-device-interface = "*"
libc = "0.2"
serde = { version = "1", features = ["derive"] }
serde_json = "1"
which = "*"
wildmatch = "2"
