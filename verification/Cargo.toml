[package]
name = "rbuster"
version = "0.1.0"
edition = "2021"
publish = false

[dependencies]
clap = { version = "*", features = ["derive"] }
colored = "*"
indicatif = "*"
reqwest = { version = "*", default-features = false, features = ["rustls-tls"] }
thiserror = "*"
tokio = { version = "*", features = ["rt-multi-thread", "macros", "fs", "io-util", "time", "sync", "net"] }
url = "*"
