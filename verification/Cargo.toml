[package]
name = "dystellar_launcher"
version = "0.1.0"
edition = "2021"
publish = false

[dependencies]
json = "0.12"
sha1 = "0.10"
magic-crypt = "4"
uuid = { version = "1", features = ["v4"] }
directories = "*"
ureq = "3"
sled = "0.34"
zip = { version = "*", default-features = false, features = ["deflate"] }
tar = "0.4"
flate2 = "1"
webbrowser = "1"
