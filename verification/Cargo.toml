[package]
name = "ssh_terminal"
version = "0.1.0"
edition = "2021"
publish = false

[dependencies]
async-trait = "0.1"
lazy_static = "1"
russh = "0.38"
russh-keys = "0.38"
serde = { version = "1", features = ["derive"] }
tokio = { version = "1", features = ["macros", "rt", "sync", "time"] }
