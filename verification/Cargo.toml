[package]
name = "music_sorter"
version = "0.1.1"
edition = "2021"
publish = false

[dependencies]
dirs = "6"
sha2 = "0.10"
hex = "0.4"
anyhow = "1"
clap = { version = "4", features = ["derive"] }
colored = "2"
ctrlc = "3"
indicatif = "0.17"
lofty = "0.22"
rayon = "1"
reflink-copy = "0.1"
reqwest = { version = "0.12", default-features = false, features = ["blocking", "json", "rustls-tls"] }
rusqlite = { version = "0.32", features = ["bundled"] }
serde = { version = "1", features = ["derive"] }
serde_json = "1"
toml = "0.8"
trash = "5"
walkdir = "2"
