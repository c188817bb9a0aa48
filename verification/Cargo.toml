[package]
name = "narnia"
version = "0.1.0"
edition = "2021"
publish = false

[dependencies]
actix-files = "=0.5.0"
actix-web = "=3.3.3"
anyhow = "=1.0.104"
caps = "=0.5.6"
clap = { version = "=3.2.25", features = ["derive", "env"] }
env_logger = "=0.8.4"
htmlescape = "=0.3.1"
libtor = "=47.13.0"
log = "=0.4.34"
nix = "=0.20.2"
pledge = "*"
serde = { version = "=1.0.229", features = ["derive"] }
serde_json = "=1.0.154"
unveil = "*"
users = "=0.11.0"
