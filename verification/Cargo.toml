[package]
name = "deposit_plan"
version = "0.1.0"
edition = "2021"
publish = false

[dependencies]
anyhow = "1"
bigdecimal = "*"
chrono = { version = "0.4", default-features = false, features = ["std"] }
structopt = "0.3"
