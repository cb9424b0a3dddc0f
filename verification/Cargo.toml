[package]
name = "lecturecut"
version = "0.1.0"
edition = "2021"
publish = false

[dependencies]
clap = { version = "=4.6.7", features = ["string"] }
console = "=0.16.6"
ellipse = "=0.2.0"
indicatif = "=0.18.6"
libloading = "=0.9.0"
tabled = "=0.22.0"
tree_magic = "=0.2.3"
