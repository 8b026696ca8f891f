[package]
name = "hookrun"
version = "0.1.0"
edition = "2021"
publish = false

[dependencies]
url = "*"
shlex = "*"
clap = { version = "*", features = ["derive"] }
futures = "*"
thiserror = "*"
anyhow = "*"
