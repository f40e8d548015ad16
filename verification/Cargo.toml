[package]
name = "upgit"
version = "0.1.0"
edition = "2021"
publish = false

[dependencies]
url = "2"
git2 = { version = "0.13", default-features = false }
clap = "2"
rpassword = "5"
shellexpand = "2"
text_io = "0.1"
tokio = { version = "1", features = ["macros", "rt-multi-thread"] }
