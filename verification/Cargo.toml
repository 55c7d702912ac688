[package]
name = "studiox-switcher"
version = "0.1.0"
edition = "2021"
publish = false

[dependencies]
rtrb = "=0.1.4"
anyhow = "1"
async-osc = "0.2"
async-std = "1"
clap = { version = "4", features = ["derive"] }
ctrlc = "3"
env_logger = "0.11"
faust-types = "0.2"
jack = "0.13"
log = "0.4"
serde = { version = "1", features = ["derive"] }
smallvec = "1"
toml = "0.5"
