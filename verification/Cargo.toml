[package]
name = "mung"
version = "0.1.0"
edition = "2021"
publish = false

[dependencies]
bson = "1"
colored_json = "2"
json5 = "0.2"
log = "0.4"
mongodb = { version = "1", default-features = false, features = ["sync"] }
pretty_env_logger = "0.4"
serde = { version = "1", features = ["derive"] }
serde_json = "1"
structopt = "0.3"
