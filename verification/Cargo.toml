[package]
name = "jata"
version = "0.1.0"
edition = "2021"
publish = false

[dependencies]
clap = { version = "4", features = ["derive"] }
directories = "*"
iana-time-zone = "0.1"
jiff = "0.2"
nucleo-picker = "*"
ureq = "3"
uuid = "1"
