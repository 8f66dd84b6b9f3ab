[package]
name = "handlebars_misc_helpers"
version = "0.1.0"
edition = "2021"
publish = false

[dependencies]
attohttpc = { version = "*", default-features = false }
enquote = "1"
failure = "0.1"
handlebars = "5"
Inflector = "0.11"
jmespath = "0.3"
jsonnet-rs = "*"
log = "0.4"
regex = "1"
serde = "1"
serde_json = "1"
serde_yaml = "0.9"
thiserror = "1"
toml = { version = "0.8", features = ["preserve_order"] }
uuid = { version = "1", features = ["v4"] }

[dev-dependencies]
unindent = "0.2"
