[package]
name = "svd2pac"
version = "0.1.0"
edition = "2021"
publish = false

[dependencies]
anyhow = "1"
chrono = "0.4"
clap = { version = "4", features = ["derive"] }
convert_case = "=0.6.0"
env_logger = "0.10"
lazy-regex = "3"
linked-hash-map = { version = "=0.5.6", features = ["serde_impl"] }
log = "0.4"
serde = { version = "1", features = ["derive", "rc"] }
serde_json = "1"
svd-parser = { version = "=0.14.10", features = ["expand"] }
syn = "=2.0.119"
tera = { version = "1", default-features = false }
thiserror = "1"
