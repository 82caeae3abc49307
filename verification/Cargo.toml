[package]
name = "devenv_shell"
version = "0.1.0"
edition = "2021"
publish = false

[dependencies]
crossterm = "*"
libghostty-vt = "*"
portable-pty = "*"
tokio = { version = "*", features = ["rt-multi-thread", "sync", "signal", "macros", "time"] }
tokio-util = "*"
tracing = "*"
thiserror = "*"
miette = "*"
