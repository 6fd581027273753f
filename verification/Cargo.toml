[package]
name = "spacey"
version = "1.2.0"
edition = "2021"
publish = false

[dependencies]
clap = { version = "3", default-features = false, features = ["std"] }
getch = "0.3"
