[package]
name = "rustbuster"
version = "0.1.0"
edition = "2021"
publish = false

[dependencies]
http = "*"
reqwest = { version = "*", default-features = false, features = ["blocking"] }
tokio = { version = "*", features = ["rt-multi-thread", "macros", "time", "sync"] }
url = "*"
clap = { version = "*", features = ["derive"] }
indicatif = "*"

[dev-dependencies]
mockito = "*"
