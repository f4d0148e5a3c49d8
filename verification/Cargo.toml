[package]
name = "raptrix_pslf_rs"
version = "0.6.0"
edition = "2021"
publish = false

[dependencies]
anyhow = "1"
arrow = { version = "60", default-features = false }
chrono = "0.4"
clap = { version = "4", features = ["derive"] }
