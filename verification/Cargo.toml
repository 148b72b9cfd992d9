[package]
name = "greeter"
version = "0.1.0"
edition = "2021"
publish = false

[dependencies]
async-stream = "0.3"
env_logger = "0.11"
futures = "0.3"
log = "0.4"
prost = "0.13"
tokio = { version = "1", features = ["macros", "rt-multi-thread", "time"] }
tonic = "0.12"
