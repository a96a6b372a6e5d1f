[package]
name = "sshdash"
version = "0.1.0"
edition = "2021"
publish = false

[dependencies]
russh-sftp = "2"
tokio = { version = "1", features = ["rt", "sync", "time"] }
vt100 = "0.15"
