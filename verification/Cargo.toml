[package]
name = "devstart"
version = "0.1.0"
edition = "2021"
publish = false

[dependencies]
regex = "1"
owo-colors = "3"
serde = { version = "1", features = ["derive"] }
serde_yaml = "0.9"
serde_json = "1"
argh = "0.1"
duct = "0.13"
duct_sh = "0.13"
copypasta = "0.8"
open = "3"
requestty = "0.5"
tabled = "0.10"
eyre = "0.6"
fs-err = "2"
