[package]
name = "pumpkin_items"
version = "0.1.0"
edition = "2021"
publish = false

[dependencies]
base64 = "*"
cesu8 = "*"
crc-fast = "*"
md5 = "*"
rand = "*"
uuid = "*"
