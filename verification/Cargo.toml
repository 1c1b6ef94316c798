[package]
name = "twincat_link"
version = "0.1.0"
edition = "2021"
publish = false

[dependencies]
autd3-core = { version = "=38.1.0", default-features = false, features = ["link"] }
autd3-link-twincat = "=38.1.0"
autd3capi-driver = "=35.0.1"
