[package]
name = "protonup"
version = "0.1.0"
edition = "2021"
publish = false

[dependencies]
anyhow = "*"
clap = { version = "*", features = ["derive"] }
dirs = "*"
flate2 = "*"
futures-util = "*"
hex = "*"
indicatif = "*"
inquire = "*"
regex = "*"
reqwest = { version = "*", default-features = false, features = ["json", "stream"] }
serde = { version = "*", features = ["derive"] }
sha2 = "*"
tar = "*"
tempfile = "*"
tokio = { version = "*", features = ["macros", "rt-multi-thread", "fs", "io-util"] }
xz2 = "*"
zstd = "*"
