[package]
name = "wrappa_core"
version = "0.1.0"
edition = "2021"
publish = false

[dependencies]
anyhow = "*"
caps = "*"
clap = { version = "*", features = ["derive"] }
libc = "*"
nix = { version = "*", features = ["ioctl", "user", "sched", "signal", "process", "fs", "resource", "feature"] }
serde = { version = "*", features = ["derive"] }
serde_json = "*"
tokio = { version = "*", features = ["full"] }
