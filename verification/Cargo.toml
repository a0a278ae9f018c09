[package]
name = "oomd_core"
version = "0.1.0"
edition = "2021"
publish = false

[dependencies]
async-trait = "*"
libc = "*"
nix = { version = "*", features = ["signal"] }
serde = { version = "*", features = ["derive"] }
serde_json = "*"
thiserror = "*"
tokio = { version = "*", features = ["rt", "macros", "time", "fs", "sync"] }
