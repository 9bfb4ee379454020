[package]
name = "paroxysm"
version = "0.1.0"
edition = "2021"
publish = false

[dependencies]
chrono = "0.4"
config = { version = "0.9", default-features = false, features = ["toml"] }
diesel = { version = "1.4", features = ["postgres", "chrono"] }
env_logger = "0.6"
failure = "0.1"
irc = "0.13"
log = "0.4"
serde = { version = "1", features = ["derive"] }

[dev-dependencies]
regex = "1"
