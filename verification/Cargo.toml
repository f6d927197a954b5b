[package]
name = "cmux_win"
version = "0.1.0"
edition = "2021"
publish = false

[dependencies]
vte = "0.13"
regex = "1"
serde = { version = "1", features = ["derive"] }
serde_json = "1"
uuid = { version = "1", features = ["v4"] }
git2 = { version = "*", default-features = false }
tokio = { version = "1", features = ["rt-multi-thread", "time", "sync", "macros"] }
parking_lot = "0.12"
log = "0.4"
env_logger = "*"
libc = "0.2"
async-trait = "0.1"
russh = "*"
russh-keys = "*"
