[package]
name = "jsl_codegen"
version = "0.1.0"
edition = "2021"
publish = false

[dependencies]
Inflector = "0.11"
clap = "2"
failure = "0.1"
jsl = "*"
serde_json = "1"
