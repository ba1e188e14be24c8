[package]
name = "wry"
version = "0.1.0"
edition = "2021"
publish = false

[dependencies]
http = "=1.5.0"
thiserror = "=2.0.21"
objc2 = { version = "=0.6.5", features = ["gnustep-2-1"] }
objc2-foundation = "=0.3.2"
objc2-web-kit = "=0.3.2"
dispatch2 = "=0.3.1"
