[package]
name = "actix-cors"
version = "0.1.0"
edition = "2021"
publish = false

[dependencies]
actix-web = { version = "=4.18.1", default-features = false }
actix-utils = "=3.0.2"
futures-util = { version = "=0.3.34", default-features = false, features = ["alloc"] }
log = "=0.4.35"
