[package]
name = "mruby_regexp"
version = "0.1.0"
edition = "2021"
publish = false

[dependencies]
onig = { version = "6", default-features = false }
