[package]
name = "dalbit"
version = "0.1.0"
edition = "2021"
publish = false

[dependencies]
anstyle = "*"
anyhow = "*"
async-trait = "*"
clap = { version = "*", features = ["derive"] }
darklua = "*"
durationfmt = "*"
env_logger = "*"
full_moon = { version = "*", features = ["luau", "lua52", "lua53", "lua54"] }
indexmap = { version = "*", features = ["serde"] }
log = "*"
serde = { version = "*", features = ["derive"] }
tokio = { version = "*", features = ["rt-multi-thread", "macros", "fs"] }
toml = "*"
