[package]
name = "luxide"
version = "0.1.0"
edition = "2021"
publish = false

[dependencies]
clap = "2.33"
either = "1"
enumflags2 = "0.6"
hidapi = "1.2"
isatty = "0.1"
itertools = "0.10"
log = "0.4"
simplelog = "0.9"
thiserror = "1.0"
