[package]
name = "pinboard_backup"
version = "0.1.0"
edition = "2021"
publish = false

[dependencies]
soup = "*"
anyhow = "*"
clap = { version = "*", features = ["derive"] }
futures = "*"
hyper = "*"
reqwest = { version = "*", default-features = false, features = ["cookies", "form"] }
tokio = { version = "*", features = ["macros", "rt-multi-thread", "fs", "io-util", "process", "time"] }
