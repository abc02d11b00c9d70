[package]
name = "relay_st_jude"
version = "0.1.0"
edition = "2021"
publish = false

[dependencies]
serde_json = "=1.0.151"
num-format = "0.4"
ureq = "=2.12.1"
color-eyre = "0.6"
