[package]
name = "oatf"
version = "0.1.0"
edition = "2021"
publish = false

[dependencies]
regex = "*"
serde_json = "*"
serde_json_path = "*"
cel = "*"
