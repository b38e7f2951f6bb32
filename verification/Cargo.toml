[package]
name = "kaarissou"
version = "0.1.0"
edition = "2021"
publish = false

[dependencies]
tokio = { version = "1", features = ["macros", "rt-multi-thread", "process", "fs", "time", "sync"] }
poise = "0.3"
songbird = "0.3"
async-trait = "0.1"
reqwest = { version = "0.11", features = ["json"] }
reqwest-middleware = "0.2"
http-cache-reqwest = "0.5"
serde = { version = "1", features = ["derive"] }
serde_json = "1"
toml = "0.5"
thiserror = "1"
hound = "3"
once_cell = "1"
