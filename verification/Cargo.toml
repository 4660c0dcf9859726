[package]
name = "coco"
version = "0.1.0"
edition = "2021"
publish = false

[dependencies]
either = "=1.19.0"
log = "=0.4.34"
radicle-keystore = "=0.2.0"
radicle-surf = "=0.29.0"
tokio = { version = "=1.54.1", features = ["rt", "macros"] }
