[package]
name = "blackship"
version = "0.1.0"
edition = "2021"
publish = false

[dependencies]
clap = { version = "*", features = ["derive"] }
serde = { version = "*", features = ["derive"] }
toml = "*"
serde_json = "*"
libc = "*"
nix = { version = "*", features = ["user", "process", "signal", "fs"] }
tar = "*"
xz2 = { version = "*", features = ["static"] }
zstd = "*"
ureq = "*"
sha2 = "*"
hex = "*"
rand = "*"
tokio = { version = "*", features = ["rt-multi-thread", "sync", "time", "macros"] }
