[package]
name = "gnos"
version = "0.1.0"
edition = "2021"
publish = false

[dependencies]
serde_json = "1.0.154"
getopts = "0.2.24"
mustache = "0.9.0"
runits = "0.1.10"
