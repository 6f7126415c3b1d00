[package]
name = "modular-agent-zapcode"
version = "0.1.0"
edition = "2021"
publish = false

[dependencies]
im = "*"
indexmap = "*"
log = "*"
modular-agent-core = "*"
serde_json = "*"
tokio = { version = "*", features = ["sync", "rt", "rt-multi-thread", "macros"] }
zapcode-core = "*"
