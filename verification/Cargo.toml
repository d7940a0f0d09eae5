[package]
name = "icsutils"
version = "0.5.0"
edition = "2021"
publish = false

[dependencies]
sled = "0.34"
ical = "0.7"
stringreader = "0.1"
bcrypt = "*"
rand = "0.8"
serde = { version = "1", features = ["derive"] }
serde_json = "1"
log = "0.4"
clap = "2"
actix-web = "3"
actix-files = "0.5"
ejdb = "*"
