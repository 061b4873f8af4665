[package]
name = "dodeca"
version = "0.1.0"
edition = "2021"
publish = false

[dependencies]
regex = "=1.13.1"
rapidhash = "=4.5.1"
arborium-theme = "=2.18.2"
arborium = { version = "=2.18.2", default-features = false, features = ["lang-rust"] }
owo-colors = "=4.4.0"
tracing = "=0.1.44"
tracing-subscriber = { version = "=0.3.23", features = ["env-filter"] }
camino = "=1.2.6"
