[package]
name = "raid-bdev"
version = "0.1.0"
edition = "2021"
publish = false

[dependencies]
async-trait = "0.1"
snafu = "0.8"
url = "2.5"
uuid = { version = "1", features = ["v4"] }
