[package]
name = "box-run"
version = "0.1.0"
edition = "2021"
publish = false

[dependencies]
clap = { version = "4", features = ["derive"] }
landlock = "0.4"
libc = "0.2"
serde = { version = "1", features = ["derive"] }
tempfile = "3"
thiserror = "2"
toml = "*"
tracing = "0.1"
tracing-subscriber = "0.3"
which = "*"
