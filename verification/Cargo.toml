[package]
name = "rugen"
version = "0.1.0"
edition = "2021"
publish = false

[dependencies]
rand = "=0.10.3"
rune = { version = "=0.14.2", features = ["fmt"] }
rune-modules = "=0.14.2"
clap = { version = "=4.6.7", features = ["derive"] }
anyhow = "=1.0.104"
serde_json = "=1.0.154"
thiserror = "=2.0.21"
