[package]
name = "gredit"
version = "0.1.0"
edition = "2021"
publish = false

[dependencies]
grep = "0.3"
syntect = { version = "5", default-features = false, features = ["default-syntaxes", "default-themes", "regex-fancy"] }
tui = "0.19"
crossterm = "0.25"
edit = "0.1"
simple-log = "1"
