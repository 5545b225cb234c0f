[package]
name = "cliff"
version = "0.1.0"
edition = "2021"
publish = false

[dependencies]
rusoto_core = { version = "*", default-features = false, features = ["rustls"] }
rusoto_cloudformation = { version = "*", default-features = false, features = ["rustls"] }
tokio = { version = "*", features = ["rt-multi-thread"] }
structopt = "*"
colored = "*"
tempfile = "*"
log = "*"
env_logger = "*"
