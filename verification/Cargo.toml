[package]
name = "sentry-eyre"
version = "0.1.0"
edition = "2021"
publish = false

[dependencies]
eyre = "0.6"
sentry-backtrace = "*"
sentry-core = { version = "*", features = ["client"] }
stable-eyre = "0.2"

[dev-dependencies]
sentry-core = { version = "*", features = ["client", "test"] }
