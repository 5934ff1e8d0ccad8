[package]
name = "tfb_toolset"
version = "0.1.0"
edition = "2021"
publish = false

[dependencies]
chrono = "*"
clap = "4"
colored = "*"
ctrlc = "*"
curl = "*"
dirs = "*"
dockurl = "*"
glob = "*"
rand = "*"
serde = { version = "*", features = ["derive"] }
serde_json = "*"
strip-ansi-escapes = "*"
toml = "*"
uuid = "*"
