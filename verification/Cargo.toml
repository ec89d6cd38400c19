[package]
name = "imessage_html"
version = "0.1.0"
edition = "2021"
publish = false

[dependencies]
crabapple = "0.4"
imessage-database = "=4.1.0"
rpassword = "=7.5.4"
