[package]
name = "ecstest"
version = "0.1.0"
edition = "2021"
publish = false

[dependencies]
rand = "=0.9.5"
tokio = { version = "=1.54.1", features = ["full"] }
tokio-util = { version = "=0.7.20", features = ["codec"] }
futures-util = { version = "=0.3.34", features = ["sink"] }
crossterm = { version = "=0.29.0", features = ["event-stream"] }
clap = { version = "=4.6.7", features = ["derive"] }
interprocess = { version = "=2.4.7", features = ["tokio"] }
serde = { version = "=1.0.229", features = ["derive"] }
facet = "=0.46.5"
bevy = { version = "=0.18.1", default-features = false }
bevy_ecs = "=0.18.1"
bevy_replicon = "=0.40.4"
seldom_state = "=0.16.0"
