[package]
name = "gai"
version = "0.1.0"
edition = "2021"
publish = false

[dependencies]
chrono = { version = "0.4", default-features = false, features = ["alloc", "std", "clock"] }
git2 = { version = "*", default-features = false }
crossterm = "*"
serde = { version = "1", features = ["derive"] }
serde_json = "1"
clap = { version = "4", features = ["derive"] }
anyhow = "1"
toml = "*"
directories = "*"
dotenv = "*"
minreq = { version = "2", features = ["https-rustls"] }
dialoguer = "*"
open = "*"
owo-colors = "*"
strum = { version = "*", features = ["derive"] }
schemars = "1"
walkdir = "2"
console = "*"
