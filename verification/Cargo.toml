[package]
name = "fuzzy5e"
version = "0.1.0"
edition = "2021"
publish = false

[dependencies]
bson = "2"
derivative = "=2.2.0"
hex = "=0.4.3"
log = "=0.4.34"
mongodb = { version = "2.8", default-features = false, features = ["tokio-sync"] }
pretty_env_logger = "=0.4.0"
quick-error = "=1.2.3"
serde_json = "=1.0.154"
simplelog = "=0.7.6"
structopt = "=0.3.26"
tuikit = "=0.3.4"
unicode-linebreak = "=0.1.5"
