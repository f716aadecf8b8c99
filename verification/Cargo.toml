[package]
name = "octopod"
version = "0.1.0"
edition = "2021"
publish = false

[dependencies]
uuid = { version = "*", features = ["v4"] }
podman-api = "*"
tokio = { version = "*", features = ["macros", "rt-multi-thread", "sync"] }
tokio-stream = "*"
futures = "*"
termion = "*"
anyhow = "*"
