[package]
name = "gezellij"
version = "0.1.0"
edition = "2021"
publish = false

[dependencies]
anyhow = "1"
async-trait = "0.1"
clap = { version = "4", features = ["derive"] }
close_fds = "0.3"
libc = "0.2"
log = "0.4"
nix = { version = "0.30", features = ["fs", "ioctl", "process", "signal", "socket", "term", "uio"] }
serde = { version = "1", features = ["derive"] }
serde_json = "1"
sha2 = "0.10"
signal-hook = "0.3"
tokio = { version = "1", features = ["net", "rt", "time"] }
uuid = { version = "1", features = ["v4"] }
