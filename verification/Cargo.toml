[package]
name = "mobius"
version = "0.1.0"
edition = "2021"
publish = false

[dependencies]
chrono = "0.4"
home = "0.5"
main_error = "0.1"
structopt = "0.3"
thiserror = "1"
