[package]
name = "places_migrator"
version = "0.1.0"
edition = "2021"
publish = false

[dependencies]
clap = "=4.6.7"
env_logger = "=0.11.11"
failure = "=0.1.8"
find-places-db = "=0.2.0"
log = "=0.4.34"
rusqlite = { version = "=0.40.2", features = ["bundled"] }
tempfile = "=3.27.0"
