[package]
name = "wsync"
version = "0.1.0"
edition = "2021"
publish = false

[dependencies]
serde = { version = "*", features = ["derive"] }
serde_json = "*"
log = "*"
log4rs = "*"
uuid = { version = "*", features = ["v4"] }
ctrlc = "*"
nix = { version = "*", features = ["signal"] }
inotify = "*"
notify = "*"
clap = { version = "*", features = ["derive"] }
