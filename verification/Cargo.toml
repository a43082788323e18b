[package]
name = "iris"
version = "0.1.0"
edition = "2021"
publish = false

[dependencies]
uuid = { version = "1", features = ["v4"] }
lz4_flex = "0.11"
psd = "0.3"
quick-xml = "0.37"
zip = { version = "7", default-features = false, features = ["deflate"] }
thiserror = "2"
tracing = "0.1"
kurbo = "0.11"
