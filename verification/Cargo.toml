[package]
name = "todo"
version = "0.1.0"
edition = "2021"
publish = false

[dependencies]
chrono = "0.4"
clap = { version = "4", features = ["derive"] }
dirs = "*"
nu-ansi-term = "*"
reedline = "*"
rusqlite = { version = "*", features = ["bundled"] }
shlex = "*"
thiserror = "*"
