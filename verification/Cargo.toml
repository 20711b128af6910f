[package]
name = "pwservice"
version = "0.1.0"
edition = "2021"
publish = false

[dependencies]
chrono = { version = "0.4", default-features = false, features = ["std"] }
clap = { version = "4", features = ["derive"] }
env_logger = "0.11"
log = "0.4"
prost = "0.13"
tokio = { version = "1", features = ["macros", "rt-multi-thread", "signal", "time"] }
zenoh = { version = "1", default-features = false, features = ["transport_tcp"] }
