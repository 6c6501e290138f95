[package]
name = "sitegen"
version = "0.1.0"
edition = "2021"
publish = false

[dependencies]
handlebars = { version = "=6.4.4", features = ["script_helper"] }
serde_json = "=1.0.151"
serde_yaml = "=0.9.34"
toml = "=1.1.7"
markdown = "=1.0.0"
grass = { version = "=0.13.4", default-features = false }
regex = "=1.13.1"
clap = { version = "=4.6.7", features = ["derive"] }
env_logger = "=0.11.11"
log = "=0.4.34"
