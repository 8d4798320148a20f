[package]
name = "lob"
version = "0.1.0"
edition = "2021"
publish = false

[dependencies]
atty = "0.2"
clap = { version = "4", features = ["derive"] }
colored = "2"
csv = "1"
dirs = "5"
serde = { version = "1", features = ["derive"] }
serde_json = "1"
sha2 = "0.10"
tabled = "0.15"
tar = "0.4"
thiserror = "1"
zstd = "0.13"
