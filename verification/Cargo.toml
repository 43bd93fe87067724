[package]
name = "seeds_core"
version = "0.1.0"
edition = "2021"
publish = false

[dependencies]
anyhow = "*"
chrono = "*"
clap = { version = "*", features = ["derive"] }
console = "*"
dialoguer = "*"
dotenv = "*"
futures-core = "*"
thiserror = "*"
