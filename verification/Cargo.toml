[package]
name = "sitegen"
version = "0.1.0"
edition = "2021"
publish = false

[dependencies]
base64 = "*"
image = "*"
thumbhash = "*"
serde = "*"
serde_derive = "*"
serde_yaml = "*"
tinytemplate = "*"
pulldown-cmark = "*"
