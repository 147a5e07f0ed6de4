[package]
name = "opencodex"
version = "0.1.0"
edition = "2021"
publish = false

[dependencies]
anyhow = "*"
chrono = "*"
clap = { version = "*", features = ["derive"] }
dirs = "*"
hex = "=0.4.3"
libc = "*"
reqwest = { version = "*", default-features = false }
serde = { version = "*", features = ["derive"] }
serde_json = "=1.0.151"
sha2 = "=0.11.0"
takecell = "=0.1.1"
teloxide = { version = "=0.17.0", default-features = false, features = ["ctrlc_handler"] }
tokio = { version = "*", features = ["full"] }
